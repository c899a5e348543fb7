//! Display settings as read from the configuration resource, and the
//! persisted resources' names.

use vstd::prelude::*;
use vstd::string::{StrSliceExecFns, StringExecFns};

verus! {

/// The settings as text, as the configuration resource holds them.
#[derive(Debug, Clone)]
pub struct RawConfigs {
    pub border_type: String,
    pub border_style: String,
    pub title_style: String,
}

impl Default for RawConfigs {
    fn default() -> (r: RawConfigs)
        ensures
            r.border_type@ == "rounded"@,
            r.border_style@ == "bold"@,
            r.title_style@ == "italic"@,
    {
        RawConfigs {
            border_type: String::from_str("rounded"),
            border_style: String::from_str("bold"),
            title_style: String::from_str("italic"),
        }
    }
}

/// How the table's border is drawn.
#[derive(Debug, Clone, Copy, PartialEq, Eq, Structural)]
pub enum BorderKind {
    Plain,
    Rounded,
    Double,
    Thick,
}

/// A text style.
#[derive(Debug, Clone, Copy, PartialEq, Eq, Structural)]
pub enum StyleModifier {
    Bold,
    Dim,
    Italic,
    Underlined,
    SlowBlink,
    RapidBlink,
    Reversed,
    Hidden,
    CrossedOut,
}

/// The settings the table is drawn with.
#[derive(Debug, Clone, Copy, PartialEq, Eq, Structural)]
pub struct CursesConfigs {
    pub border_type: BorderKind,
    pub border_style: StyleModifier,
    pub title_style: StyleModifier,
}

impl Default for CursesConfigs {
    fn default() -> (r: CursesConfigs)
        ensures
            r == (CursesConfigs {
                border_type: BorderKind::Rounded,
                border_style: StyleModifier::Bold,
                title_style: StyleModifier::Italic,
            }),
    {
        CursesConfigs {
            border_type: BorderKind::Rounded,
            border_style: StyleModifier::Bold,
            title_style: StyleModifier::Italic,
        }
    }
}

/// `c` with an ASCII capital letter made small.
pub open spec fn ascii_lower(c: char) -> char {
    if 'A' <= c && c <= 'Z' {
        ((c as u32) + 32) as char
    } else {
        c
    }
}

/// `s` with every ASCII capital letter made small.
pub open spec fn ascii_lowered(s: Seq<char>) -> Seq<char> {
    s.map_values(|c: char| ascii_lower(c))
}

/// `s` with every ASCII capital letter made small.
fn to_ascii_lowercase(s: &str) -> (r: String)
    ensures
        r@ == ascii_lowered(s@),
{
    let n = s.unicode_len();
    let mut r = String::new();
    let mut i: usize = 0;
    while i < n
        invariant
            n == s@.len(),
            i <= n,
            r@ == ascii_lowered(s@.take(i as int)),
        decreases n - i,
    {
        let c = s.get_char(i);
        let lower = if 'A' <= c && c <= 'Z' {
            ((c as u8) + 32) as char
        } else {
            c
        };
        assert(lower == ascii_lower(c));
        r.push(lower);
        assert(s@.take(i as int + 1) =~= s@.take(i as int).push(c));
        assert(ascii_lowered(s@.take(i as int + 1)) =~= ascii_lowered(s@.take(i as int)).push(
            ascii_lower(c),
        ));
        i = i + 1;
    }
    assert(s@.take(n as int) =~= s@);
    r
}

/// Whether two texts hold the same characters.
fn same_text(a: &str, b: &str) -> (r: bool)
    ensures
        r == (a@ == b@),
{
    let n = a.unicode_len();
    if n != b.unicode_len() {
        return false;
    }
    let mut i: usize = 0;
    while i < n
        invariant
            n == a@.len(),
            n == b@.len(),
            i <= n,
            forall|j: int| 0 <= j < i ==> a@[j] == b@[j],
        decreases n - i,
    {
        if a.get_char(i) != b.get_char(i) {
            return false;
        }
        i = i + 1;
    }
    assert(a@ =~= b@);
    true
}

/// The border a (lower-cased) name stands for; `Plain` for any other name.
pub open spec fn border_named(t: Seq<char>) -> BorderKind {
    if t == "rounded"@ {
        BorderKind::Rounded
    } else if t == "plain"@ {
        BorderKind::Plain
    } else if t == "double"@ {
        BorderKind::Double
    } else if t == "thick"@ {
        BorderKind::Thick
    } else {
        BorderKind::Plain
    }
}

/// The style a (lower-cased) name stands for; `Bold` for any other name.
pub open spec fn modifier_named(t: Seq<char>) -> StyleModifier {
    if t == "bold"@ {
        StyleModifier::Bold
    } else if t == "dim"@ {
        StyleModifier::Dim
    } else if t == "italic"@ {
        StyleModifier::Italic
    } else if t == "underlined"@ {
        StyleModifier::Underlined
    } else if t == "slow_blink"@ {
        StyleModifier::SlowBlink
    } else if t == "rapid_blink"@ {
        StyleModifier::RapidBlink
    } else if t == "reversed"@ {
        StyleModifier::Reversed
    } else if t == "hidden"@ {
        StyleModifier::Hidden
    } else if t == "crossed_out"@ {
        StyleModifier::CrossedOut
    } else {
        StyleModifier::Bold
    }
}

/// The border named by `border_type`, ignoring ASCII case.
pub fn match_border_type(border_type: &str) -> (r: BorderKind)
    ensures
        r == border_named(ascii_lowered(border_type@)),
{
    let lower = to_ascii_lowercase(border_type);
    let t = lower.as_str();
    if same_text(t, "rounded") {
        BorderKind::Rounded
    } else if same_text(t, "plain") {
        BorderKind::Plain
    } else if same_text(t, "double") {
        BorderKind::Double
    } else if same_text(t, "thick") {
        BorderKind::Thick
    } else {
        BorderKind::Plain
    }
}

/// The style named by `modifier`, ignoring ASCII case.
pub fn match_modifier(modifier: &str) -> (r: StyleModifier)
    ensures
        r == modifier_named(ascii_lowered(modifier@)),
{
    let lower = to_ascii_lowercase(modifier);
    let t = lower.as_str();
    if same_text(t, "bold") {
        StyleModifier::Bold
    } else if same_text(t, "dim") {
        StyleModifier::Dim
    } else if same_text(t, "italic") {
        StyleModifier::Italic
    } else if same_text(t, "underlined") {
        StyleModifier::Underlined
    } else if same_text(t, "slow_blink") {
        StyleModifier::SlowBlink
    } else if same_text(t, "rapid_blink") {
        StyleModifier::RapidBlink
    } else if same_text(t, "reversed") {
        StyleModifier::Reversed
    } else if same_text(t, "hidden") {
        StyleModifier::Hidden
    } else if same_text(t, "crossed_out") {
        StyleModifier::CrossedOut
    } else {
        StyleModifier::Bold
    }
}

impl CursesConfigs {
    /// The settings that the raw texts name.
    pub fn new(border_type: String, border_style: String, title_style: String) -> (r: Self)
        ensures
            r.border_type == border_named(ascii_lowered(border_type@)),
            r.border_style == modifier_named(ascii_lowered(border_style@)),
            r.title_style == modifier_named(ascii_lowered(title_style@)),
    {
        CursesConfigs {
            border_type: match_border_type(border_type.as_str()),
            border_style: match_modifier(border_style.as_str()),
            title_style: match_modifier(title_style.as_str()),
        }
    }
}

/// The persisted resources.
#[derive(Debug, Clone, Copy, PartialEq, Eq, Structural)]
pub enum FileType {
    Passwords,
    Config,
    Passrc,
}

impl FileType {
    /// The resource's file name, without extension.
    pub fn name(&self) -> (r: String)
        ensures
            r@ == match self {
                FileType::Passwords => "passwords"@,
                FileType::Config => "config"@,
                FileType::Passrc => "passrc"@,
            },
    {
        match self {
            FileType::Passwords => String::from_str("passwords"),
            FileType::Config => String::from_str("config"),
            FileType::Passrc => String::from_str("passrc"),
        }
    }
}

} // verus!
