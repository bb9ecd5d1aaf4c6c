use vstd::prelude::*;

verus! {

/// Lowercase ASCII letter.
pub open spec fn is_lower(c: char) -> bool {
    'a' <= c && c <= 'z'
}

/// ASCII decimal digit.
pub open spec fn is_digit(c: char) -> bool {
    '0' <= c && c <= '9'
}

/// Why a text is not a kebab-case label.
#[derive(Debug, Clone, Copy, PartialEq, Eq, Structural)]
pub enum InvalidLabel {
    /// The text is empty.
    Empty,
    /// One of the dash-separated words is empty.
    EmptyWord,
    /// A word holds a character other than a lowercase letter or a digit.
    InvalidChar,
    /// A word does not begin with a lowercase letter.
    InvalidWordFirstChar,
}

/// The first defect met when reading `s` from position `i`, where
/// `at_start` says whether `i` is the first position of a word.
pub open spec fn scan_label(s: Seq<char>, i: int, at_start: bool) -> Option<InvalidLabel>
    decreases s.len() - i,
{
    if i < 0 || i >= s.len() {
        if at_start {
            Some(InvalidLabel::EmptyWord)
        } else {
            None
        }
    } else if s[i] == '-' {
        if at_start {
            Some(InvalidLabel::EmptyWord)
        } else {
            scan_label(s, i + 1, true)
        }
    } else if at_start {
        if is_lower(s[i]) {
            scan_label(s, i + 1, false)
        } else {
            Some(InvalidLabel::InvalidWordFirstChar)
        }
    } else if is_lower(s[i]) || is_digit(s[i]) {
        scan_label(s, i + 1, false)
    } else {
        Some(InvalidLabel::InvalidChar)
    }
}

/// The defect of `s` as a label, if any.
pub open spec fn label_error(s: Seq<char>) -> Option<InvalidLabel> {
    if s.len() == 0 {
        Some(InvalidLabel::Empty)
    } else {
        scan_label(s, 0, true)
    }
}

/// `s` is a kebab-case label.
pub open spec fn is_label(s: Seq<char>) -> bool {
    label_error(s) is None
}

/// A kebab-case label: non-empty dash-separated words, each starting with a
/// lowercase ASCII letter and holding only lowercase letters and digits.
#[derive(Debug, Clone, PartialEq, Eq, Hash, PartialOrd, Ord)]
pub struct Label {
    text: String,
}

impl View for Label {
    type V = Seq<char>;

    closed spec fn view(&self) -> Seq<char> {
        self.text@
    }
}

impl Label {
    /// Well-formedness: the text is a label.
    pub open spec fn wf(&self) -> bool {
        is_label(self@)
    }

    /// Checks `s` and returns it as a label, or the first defect found.
    pub fn parse(s: &str) -> (r: Result<Label, InvalidLabel>)
        ensures
            match r {
                Ok(l) => label_error(s@) is None && l@ == s@ && l.wf(),
                Err(e) => label_error(s@) == Some(e),
            },
    {
        let n = s.unicode_len();
        if n == 0 {
            return Err(InvalidLabel::Empty);
        }
        let mut i: usize = 0;
        let mut at_start = true;
        while i < n
            invariant
                n == s@.len(),
                0 <= i <= n,
                label_error(s@) == scan_label(s@, i as int, at_start),
            decreases n - i,
        {
            let c = s.get_char(i);
            if c == '-' {
                if at_start {
                    return Err(InvalidLabel::EmptyWord);
                }
                at_start = true;
            } else if at_start {
                if !('a' <= c && c <= 'z') {
                    return Err(InvalidLabel::InvalidWordFirstChar);
                }
                at_start = false;
            } else if !(('a' <= c && c <= 'z') || ('0' <= c && c <= '9')) {
                return Err(InvalidLabel::InvalidChar);
            }
            i = i + 1;
        }
        if at_start {
            return Err(InvalidLabel::EmptyWord);
        }
        Ok(Label { text: String::from_str(s) })
    }

    /// The label's text.
    pub fn as_str(&self) -> (r: &str)
        ensures
            r@ == self@,
    {
        self.text.as_str()
    }

    /// The label's text as an owned string.
    pub fn to_string(&self) -> (r: String)
        ensures
            r@ == self@,
    {
        self.text.clone()
    }

    /// A copy of the label.
    pub fn copy(&self) -> (r: Label)
        ensures
            r@ == self@,
    {
        Label { text: self.text.clone() }
    }

    /// Whether two labels have the same text.
    pub fn same(&self, other: &Label) -> (r: bool)
        ensures
            r == (self@ == other@),
    {
        self.text == other.text
    }
}

} // verus!
