//! Leaf values carried by nodes: interned-identifier-like labels, owned
//! string-literal text, and numeric values held as validated decimal text.

use vstd::prelude::*;
use vstd::string::StrSliceExecFns;

verus! {

/// Characters a label may hold: identifier-style text that needs no escaping.
pub open spec fn is_label_char(c: char) -> bool {
    ||| ('a' as u32) <= (c as u32) && (c as u32) <= ('z' as u32)
    ||| ('A' as u32) <= (c as u32) && (c as u32) <= ('Z' as u32)
    ||| ('0' as u32) <= (c as u32) && (c as u32) <= ('9' as u32)
    ||| c == '_'
    ||| c == '$'
}

pub open spec fn is_label_text(s: Seq<char>) -> bool {
    forall|i: int| 0 <= i < s.len() ==> is_label_char(s[i])
}

/// Short interned-identifier-like text, restricted to identifier characters.
#[derive(Clone, PartialEq, Eq, Debug)]
pub struct NodeLabel {
    text: String,
}

impl View for NodeLabel {
    type V = Seq<char>;

    closed spec fn view(&self) -> Seq<char> {
        self.text@
    }
}

impl NodeLabel {
    pub open spec fn wf(&self) -> bool {
        is_label_text(self@)
    }

    /// Accepts exactly the texts made of label characters.
    pub fn new(text: String) -> (r: Option<NodeLabel>)
        ensures
            match r {
                Some(l) => l@ == text@ && l.wf(),
                None => !is_label_text(text@),
            },
    {
        let s = text.as_str();
        let n = s.unicode_len();
        let mut i: usize = 0;
        while i < n
            invariant
                i <= n,
                n == s@.len(),
                s@ == text@,
                forall|j: int| 0 <= j < i ==> is_label_char(s@[j]),
            decreases n - i,
        {
            let c = s.get_char(i);
            if !label_char(c) {
                return None;
            }
            i = i + 1;
        }
        Some(NodeLabel { text })
    }

    pub fn as_str(&self) -> (r: &str)
        ensures
            r@ == self@,
    {
        self.text.as_str()
    }
}

fn label_char(c: char) -> (r: bool)
    ensures
        r == is_label_char(c),
{
    let u = c as u32;
    (('a' as u32) <= u && u <= ('z' as u32)) || (('A' as u32) <= u && u <= ('Z' as u32)) || (('0'
        as u32) <= u && u <= ('9' as u32)) || c == '_' || c == '$'
}

/// Owned string-literal content; may hold arbitrary text and is escaped on dump.
#[derive(Clone, PartialEq, Eq, Debug)]
pub struct NodeString {
    text: String,
}

impl View for NodeString {
    type V = Seq<char>;

    closed spec fn view(&self) -> Seq<char> {
        self.text@
    }
}

impl NodeString {
    pub fn new(text: String) -> (r: NodeString)
        ensures
            r@ == text@,
    {
        NodeString { text }
    }

    pub fn as_str(&self) -> (r: &str)
        ensures
            r@ == self@,
    {
        self.text.as_str()
    }
}

pub open spec fn is_digit(c: char) -> bool {
    ('0' as u32) <= (c as u32) && (c as u32) <= ('9' as u32)
}

/// First position at or after `i` that does not hold a digit.
pub open spec fn digits_end(s: Seq<char>, i: int) -> int
    decreases s.len() - i,
{
    if 0 <= i < s.len() && is_digit(s[i]) {
        digits_end(s, i + 1)
    } else {
        i
    }
}

pub proof fn lemma_digits_end_bounds(s: Seq<char>, i: int)
    requires
        0 <= i <= s.len(),
    ensures
        i <= digits_end(s, i) <= s.len(),
    decreases s.len() - i,
{
    if i < s.len() && is_digit(s[i]) {
        lemma_digits_end_bounds(s, i + 1);
    }
}

/// The decimal grammar a numeric value's text must follow: an optional minus,
/// an integer part without a superfluous leading zero, an optional fraction
/// with at least one digit, and an optional exponent with at least one digit.
pub open spec fn is_json_number(s: Seq<char>) -> bool {
    let start: int = if s.len() > 0 && s[0] == '-' {
        1
    } else {
        0
    };
    if start >= s.len() || !is_digit(s[start]) {
        false
    } else {
        let int_end: int = if s[start] == '0' {
            start + 1
        } else {
            digits_end(s, start)
        };
        let frac_end: int = if int_end < s.len() && s[int_end] == '.' {
            digits_end(s, int_end + 1)
        } else {
            int_end
        };
        if int_end < s.len() && s[int_end] == '.' && frac_end == int_end + 1 {
            false
        } else if frac_end < s.len() && (s[frac_end] == 'e' || s[frac_end] == 'E') {
            let exp_start: int = if frac_end + 1 < s.len() && (s[frac_end + 1] == '+' || s[frac_end
                + 1] == '-') {
                frac_end + 2
            } else {
                frac_end + 1
            };
            digits_end(s, exp_start) > exp_start && digits_end(s, exp_start) == s.len()
        } else {
            frac_end == s.len()
        }
    }
}

/// A numeric literal's value, held as its exact decimal spelling.
#[derive(Clone, PartialEq, Eq, Debug)]
pub struct NodeNumber {
    text: String,
}

impl View for NodeNumber {
    type V = Seq<char>;

    closed spec fn view(&self) -> Seq<char> {
        self.text@
    }
}

impl NodeNumber {
    pub open spec fn wf(&self) -> bool {
        is_json_number(self@)
    }

    /// Accepts exactly the texts that follow the decimal grammar.
    pub fn new(text: String) -> (r: Option<NodeNumber>)
        ensures
            match r {
                Some(n) => n@ == text@ && n.wf(),
                None => !is_json_number(text@),
            },
    {
        if check_json_number(text.as_str()) {
            Some(NodeNumber { text })
        } else {
            None
        }
    }

    pub fn as_str(&self) -> (r: &str)
        ensures
            r@ == self@,
    {
        self.text.as_str()
    }
}

fn digit_char(c: char) -> (r: bool)
    ensures
        r == is_digit(c),
{
    ('0' as u32) <= (c as u32) && (c as u32) <= ('9' as u32)
}

/// Scans forward from `from` over digits, returning the first non-digit position.
fn scan_digits(s: &str, from: usize) -> (r: usize)
    requires
        from <= s@.len(),
    ensures
        r == digits_end(s@, from as int),
        from <= r <= s@.len(),
{
    let n = s.unicode_len();
    let mut i: usize = from;
    while i < n && digit_char(s.get_char(i))
        invariant
            from <= i <= n,
            n == s@.len(),
            digits_end(s@, from as int) == digits_end(s@, i as int),
        decreases n - i,
    {
        i = i + 1;
    }
    i
}

/// Decides the decimal grammar on a text.
pub fn check_json_number(s: &str) -> (r: bool)
    ensures
        r == is_json_number(s@),
{
    let n = s.unicode_len();
    let start: usize = if n > 0 && s.get_char(0) == '-' {
        1
    } else {
        0
    };
    if start >= n {
        return false;
    }
    let c0 = s.get_char(start);
    if !digit_char(c0) {
        return false;
    }
    let int_end: usize = if c0 == '0' {
        start + 1
    } else {
        scan_digits(s, start)
    };
    proof {
        lemma_digits_end_bounds(s@, start as int);
    }
    let mut cont: usize = int_end;
    if int_end < n && s.get_char(int_end) == '.' {
        let fe = scan_digits(s, int_end + 1);
        if fe == int_end + 1 {
            return false;
        }
        cont = fe;
    }
    if cont < n && (s.get_char(cont) == 'e' || s.get_char(cont) == 'E') {
        let exp_start: usize = if cont + 1 < n && (s.get_char(cont + 1) == '+' || s.get_char(
            cont + 1,
        ) == '-') {
            cont + 2
        } else {
            cont + 1
        };
        let ee = scan_digits(s, exp_start);
        ee > exp_start && ee == n
    } else {
        cont == n
    }
}

} // verus!
