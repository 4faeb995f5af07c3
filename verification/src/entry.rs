//! The domain data model: monetary amounts in cents, tags, the closed
//! category / duration / window enumerations with their textual codes, the
//! recurrence span, and the concrete dated entry.

use vstd::prelude::*;

use crate::numfmt::{push_pad2, push_u64_dec, spec_pad2, spec_u64_dec, str_eq};

verus! {

/// A signed number of currency minor units (cents).
#[derive(Debug, Clone, Copy, PartialEq, Eq, Structural)]
pub struct Amount(pub i64);

/// Decimal rendering of an amount: optional sign, whole units, a dot, and
/// two cent digits.
pub open spec fn spec_amount_text(v: int) -> Seq<char> {
    if v < 0 {
        "-"@ + spec_amount_mag_text(-v)
    } else {
        spec_amount_mag_text(v)
    }
}

/// Rendering of a nonnegative number of cents as `units.cc`.
pub open spec fn spec_amount_mag_text(m: int) -> Seq<char> {
    spec_u64_dec((m / 100) as nat) + "."@ + spec_pad2((m % 100) as nat)
}

impl Amount {
    /// Whether the amount is not zero.
    pub fn nonzero(&self) -> (r: bool)
        ensures
            r == (self.0 != 0),
    {
        self.0 != 0
    }

    /// Render the amount as decimal units with two cent digits.
    pub fn render(&self) -> (r: String)
        ensures
            r@ == spec_amount_text(self.0 as int),
    {
        let mut s = String::new();
        let mag: u64;
        if self.0 < 0 {
            s.append("-");
            proof {
                assert(0 < -(self.0 as int) <= i64::MAX as int + 1);
            }
            mag = (-(self.0 as i128)) as u64;
        } else {
            mag = self.0 as u64;
        }
        push_u64_dec(&mut s, mag / 100);
        s.append(".");
        push_pad2(&mut s, mag % 100);
        proof {
            assert(s@ =~= spec_amount_text(self.0 as int));
        }
        s
    }
}

/// An owned display string attached to an entry.
#[derive(Debug, Clone, PartialEq, Eq)]
pub struct Tag(pub String);

impl DeepView for Tag {
    type V = Seq<char>;

    open spec fn deep_view(&self) -> Seq<char> {
        self.0@
    }
}

/// Closed enumeration of entry categories.
#[derive(Debug, Clone, Copy, PartialEq, Eq, Structural)]
pub enum Category {
    Salary,
    Food,
    Communication,
    Movement,
    School,
    Cleaning,
    Home,
}

/// How many categories there are.
pub const CATEGORY_COUNT: usize = 7;

/// Image of [`Category::from_code`]: the category a short textual code
/// selects, if any.
pub open spec fn spec_cat_from_code(s: Seq<char>) -> Option<Category> {
    if s == "Pay"@ {
        Some(Category::Salary)
    } else if s == "Food"@ {
        Some(Category::Food)
    } else if s == "Com"@ {
        Some(Category::Communication)
    } else if s == "Mov"@ {
        Some(Category::Movement)
    } else if s == "Pro"@ {
        Some(Category::School)
    } else if s == "Clean"@ {
        Some(Category::Cleaning)
    } else if s == "Home"@ {
        Some(Category::Home)
    } else {
        None
    }
}

/// The short textual code of a category.
pub open spec fn spec_cat_code(c: Category) -> Seq<char> {
    match c {
        Category::Salary => "Pay"@,
        Category::Food => "Food"@,
        Category::Communication => "Com"@,
        Category::Movement => "Mov"@,
        Category::School => "Pro"@,
        Category::Cleaning => "Clean"@,
        Category::Home => "Home"@,
    }
}

/// The display name of a category.
pub open spec fn spec_cat_name(c: Category) -> Seq<char> {
    match c {
        Category::Salary => "Salary"@,
        Category::Food => "Food"@,
        Category::Communication => "Communication"@,
        Category::Movement => "Movement"@,
        Category::School => "School"@,
        Category::Cleaning => "Cleaning"@,
        Category::Home => "Home"@,
    }
}

/// The category at position `n` of the declaration order.
pub open spec fn spec_cat_of_index(n: int) -> Category {
    if n == 0 {
        Category::Salary
    } else if n == 1 {
        Category::Food
    } else if n == 2 {
        Category::Communication
    } else if n == 3 {
        Category::Movement
    } else if n == 4 {
        Category::School
    } else if n == 5 {
        Category::Cleaning
    } else {
        Category::Home
    }
}

impl Category {
    /// Select a category from its short textual code.
    pub fn from_code(s: &str) -> (r: Option<Category>)
        ensures
            r == spec_cat_from_code(s@),
    {
        if str_eq(s, "Pay") {
            Some(Category::Salary)
        } else if str_eq(s, "Food") {
            Some(Category::Food)
        } else if str_eq(s, "Com") {
            Some(Category::Communication)
        } else if str_eq(s, "Mov") {
            Some(Category::Movement)
        } else if str_eq(s, "Pro") {
            Some(Category::School)
        } else if str_eq(s, "Clean") {
            Some(Category::Cleaning)
        } else if str_eq(s, "Home") {
            Some(Category::Home)
        } else {
            None
        }
    }

    /// The short textual code of the category.
    pub fn code(&self) -> (r: String)
        ensures
            r@ == spec_cat_code(*self),
    {
        match self {
            Category::Salary => String::from_str("Pay"),
            Category::Food => String::from_str("Food"),
            Category::Communication => String::from_str("Com"),
            Category::Movement => String::from_str("Mov"),
            Category::School => String::from_str("Pro"),
            Category::Cleaning => String::from_str("Clean"),
            Category::Home => String::from_str("Home"),
        }
    }

    /// The display name of the category.
    pub fn name(&self) -> (r: String)
        ensures
            r@ == spec_cat_name(*self),
    {
        match self {
            Category::Salary => String::from_str("Salary"),
            Category::Food => String::from_str("Food"),
            Category::Communication => String::from_str("Communication"),
            Category::Movement => String::from_str("Movement"),
            Category::School => String::from_str("School"),
            Category::Cleaning => String::from_str("Cleaning"),
            Category::Home => String::from_str("Home"),
        }
    }

    /// Position of the category in the declaration order.
    pub fn index(&self) -> (r: usize)
        ensures
            r < CATEGORY_COUNT,
            spec_cat_of_index(r as int) == *self,
    {
        match self {
            Category::Salary => 0,
            Category::Food => 1,
            Category::Communication => 2,
            Category::Movement => 3,
            Category::School => 4,
            Category::Cleaning => 5,
            Category::Home => 6,
        }
    }

    /// The category at position `n` of the declaration order, if any.
    pub fn from_usize(n: usize) -> (r: Option<Category>)
        ensures
            r == if n < CATEGORY_COUNT {
                Some(spec_cat_of_index(n as int))
            } else {
                None::<Category>
            },
    {
        match n {
            0 => Some(Category::Salary),
            1 => Some(Category::Food),
            2 => Some(Category::Communication),
            3 => Some(Category::Movement),
            4 => Some(Category::School),
            5 => Some(Category::Cleaning),
            6 => Some(Category::Home),
            _ => None,
        }
    }
}

/// Closed enumeration of recurrence durations.
#[derive(Debug, Clone, Copy, PartialEq, Eq, Structural)]
pub enum Duration {
    Day,
    Week,
    Month,
    Year,
}

/// Image of [`Duration::from_code`].
pub open spec fn spec_dur_from_code(s: Seq<char>) -> Option<Duration> {
    if s == "Day"@ {
        Some(Duration::Day)
    } else if s == "Week"@ {
        Some(Duration::Week)
    } else if s == "Month"@ {
        Some(Duration::Month)
    } else if s == "Year"@ {
        Some(Duration::Year)
    } else {
        None
    }
}

impl Duration {
    /// Select a duration from its keyword.
    pub fn from_code(s: &str) -> (r: Option<Duration>)
        ensures
            r == spec_dur_from_code(s@),
    {
        if str_eq(s, "Day") {
            Some(Duration::Day)
        } else if str_eq(s, "Week") {
            Some(Duration::Week)
        } else if str_eq(s, "Month") {
            Some(Duration::Month)
        } else if str_eq(s, "Year") {
            Some(Duration::Year)
        } else {
            None
        }
    }
}

/// Closed enumeration of recurrence windows; the default is `Current`.
#[derive(Debug, Clone, Copy, PartialEq, Eq, Structural)]
pub enum Window {
    Current,
    Posterior,
    Anterior,
    Precedent,
    Successor,
}

/// Image of [`Window::from_code`].
pub open spec fn spec_win_from_code(s: Seq<char>) -> Option<Window> {
    if s == "Curr"@ {
        Some(Window::Current)
    } else if s == "Post"@ {
        Some(Window::Posterior)
    } else if s == "Ante"@ {
        Some(Window::Anterior)
    } else if s == "Pred"@ {
        Some(Window::Precedent)
    } else if s == "Succ"@ {
        Some(Window::Successor)
    } else {
        None
    }
}

impl Window {
    /// Select a window from its keyword.
    pub fn from_code(s: &str) -> (r: Option<Window>)
        ensures
            r == spec_win_from_code(s@),
    {
        if str_eq(s, "Curr") {
            Some(Window::Current)
        } else if str_eq(s, "Post") {
            Some(Window::Posterior)
        } else if str_eq(s, "Ante") {
            Some(Window::Anterior)
        } else if str_eq(s, "Pred") {
            Some(Window::Precedent)
        } else if str_eq(s, "Succ") {
            Some(Window::Successor)
        } else {
            None
        }
    }
}

/// A recurrence descriptor: duration unit, window offset, repeat count.
#[derive(Debug, Clone, Copy, PartialEq, Eq, Structural)]
pub struct Span {
    pub duration: Duration,
    pub window: Window,
    pub count: usize,
}

/// A concrete financial record: amount, category, recurrence span, tag.
#[derive(Debug, Clone, PartialEq, Eq)]
pub struct Entry {
    pub value: Amount,
    pub cat: Category,
    pub span: Span,
    pub tag: Tag,
}

/// Mathematical image of an [`Entry`].
pub struct EntryV {
    pub value: Amount,
    pub cat: Category,
    pub span: Span,
    pub tag: Seq<char>,
}

impl DeepView for Entry {
    type V = EntryV;

    open spec fn deep_view(&self) -> EntryV {
        EntryV { value: self.value, cat: self.cat, span: self.span, tag: self.tag.deep_view() }
    }
}

} // verus!
