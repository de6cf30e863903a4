//! The marker file that selects a configuration when none is named on the
//! command line.
//!
//! A marker file is plain text. A line that starts with `id` sets the
//! identifier, and a line that starts with `name` sets the name fragment. The
//! value is the rest of the line without the white space around it; a colon
//! may separate it from the prefix, so that `id:5`, `id: 5` and `id 5` say
//! the same. An identifier is a decimal integer. Other lines are ignored.
//! The last valid `id` line wins.

use vstd::prelude::*;

verus! {

broadcast use vstd::string::group_string_axioms;

/// Something worth telling the user about a line of a marker file.
#[derive(Clone, Copy, PartialEq, Eq, Structural, Debug)]
pub enum Warning {
    /// An `id` line replaced the identifier that an earlier line had set.
    Overridden { previous: i32, id: i32, line: usize },
    /// The value of an `id` line is no integer; the line was ignored.
    Malformed { line: usize },
}

/// What a marker file says, and the warnings raised while reading it.
#[derive(PartialEq, Debug)]
pub struct ConfigurationFile {
    pub id: Option<i32>,
    pub name: Option<String>,
    pub warnings: Vec<Warning>,
}

/// What a [`ConfigurationFile`] holds.
pub struct ConfigurationFileView {
    pub id: Option<i32>,
    pub name: Option<Seq<char>>,
    pub warnings: Seq<Warning>,
}

impl View for ConfigurationFile {
    type V = ConfigurationFileView;

    open spec fn view(&self) -> ConfigurationFileView {
        ConfigurationFileView {
            id: self.id,
            name: match self.name {
                Some(name) => Some(name@),
                None => None,
            },
            warnings: self.warnings@,
        }
    }
}

impl ConfigurationFile {
    /// Whether the file set neither an identifier nor a name.
    pub fn empty(&self) -> (r: bool)
        ensures
            r == (self@.id is None && self@.name is None),
    {
        self.id.is_none() && self.name.is_none()
    }
}

/// White space as `char::is_whitespace` has it: the code points with the
/// Unicode property `White_Space`.
pub open spec fn is_whitespace(c: char) -> bool {
    let u = c as u32;
    ||| 0x09 <= u <= 0x0D
    ||| u == 0x20
    ||| u == 0x85
    ||| u == 0xA0
    ||| u == 0x1680
    ||| 0x2000 <= u <= 0x200A
    ||| u == 0x2028
    ||| u == 0x2029
    ||| u == 0x202F
    ||| u == 0x205F
    ||| u == 0x3000
}

/// `s` without its leading white space.
pub open spec fn trim_start(s: Seq<char>) -> Seq<char>
    decreases s.len(),
{
    if s.len() > 0 && is_whitespace(s[0]) {
        trim_start(s.skip(1))
    } else {
        s
    }
}

/// `s` without its trailing white space.
pub open spec fn trim_end(s: Seq<char>) -> Seq<char>
    decreases s.len(),
{
    if s.len() > 0 && is_whitespace(s.last()) {
        trim_end(s.drop_last())
    } else {
        s
    }
}

/// `s` without leading and trailing white space.
pub open spec fn trim(s: Seq<char>) -> Seq<char> {
    trim_end(trim_start(s))
}

/// Whether `c` is one of `0` to `9`.
pub open spec fn is_digit(c: char) -> bool {
    '0' as u32 <= c as u32 <= '9' as u32
}

/// The number that a sequence of decimal digits writes.
pub open spec fn digits_value(s: Seq<char>) -> int
    decreases s.len(),
{
    if s.len() == 0 {
        0
    } else {
        digits_value(s.drop_last()) * 10 + (s.last() as u32 - '0' as u32)
    }
}

/// The integer that a sign and a sequence of digits write: there is at least
/// one digit, nothing but digits, and the whole lies within the range of
/// `i32`. Anything else is no integer.
pub open spec fn signed_value(negative: bool, digits: Seq<char>) -> Option<i32> {
    let value = if negative {
        -digits_value(digits)
    } else {
        digits_value(digits)
    };
    if digits.len() > 0 && (forall|k: int| 0 <= k < digits.len() ==> is_digit(#[trigger] digits[k]))
        && i32::MIN <= value <= i32::MAX {
        Some(value as i32)
    } else {
        None
    }
}

/// The integer that `s` writes: an optional `+` or `-`, then one or more
/// decimal digits, the whole within the range of `i32`.
pub open spec fn parse_i32(s: Seq<char>) -> Option<i32> {
    if s.len() > 0 && (s[0] == '-' || s[0] == '+') {
        signed_value(s[0] == '-', s.skip(1))
    } else {
        signed_value(false, s)
    }
}

/// The prefix of a line that sets the identifier.
pub open spec fn id_prefix() -> Seq<char> {
    seq!['i', 'd']
}

/// The prefix of a line that sets the name fragment.
pub open spec fn name_prefix() -> Seq<char> {
    seq!['n', 'a', 'm', 'e']
}

/// The value that follows a prefix: what is left of the line, trimmed, and
/// without the colon that may come first.
pub open spec fn value_of(rest: Seq<char>) -> Seq<char> {
    let trimmed = trim(rest);
    if trimmed.len() > 0 && trimmed[0] == ':' {
        trim(trimmed.skip(1))
    } else {
        trimmed
    }
}

/// The length of the first line of `s`: the place of its first line feed, or
/// its length where it has none.
pub open spec fn line_end(s: Seq<char>) -> int
    decreases s.len(),
{
    if s.len() == 0 || s[0] == '\n' {
        0
    } else {
        1 + line_end(s.skip(1))
    }
}

/// The lines of `s`: the pieces between its line feeds.
pub open spec fn split_lines(s: Seq<char>) -> Seq<Seq<char>>
    decreases s.len(),
{
    let end = line_end(s);
    if 0 <= end < s.len() {
        seq![s.take(end)] + split_lines(s.skip(end + 1))
    } else {
        seq![s]
    }
}

/// What is known after one more line, the line with number `number`.
pub open spec fn read_line(
    state: ConfigurationFileView,
    line: Seq<char>,
    number: nat,
) -> ConfigurationFileView {
    if id_prefix().is_prefix_of(line) {
        match parse_i32(value_of(line.skip(2))) {
            Some(id) => ConfigurationFileView {
                id: Some(id),
                warnings: match state.id {
                    Some(previous) => state.warnings.push(
                        Warning::Overridden { previous, id, line: number as usize },
                    ),
                    None => state.warnings,
                },
                ..state
            },
            None => ConfigurationFileView {
                warnings: state.warnings.push(Warning::Malformed { line: number as usize }),
                ..state
            },
        }
    } else if name_prefix().is_prefix_of(line) {
        ConfigurationFileView { name: Some(value_of(line.skip(4))), ..state }
    } else {
        state
    }
}

/// What is known after reading `lines` in order, the first of which has
/// number `number`.
pub open spec fn read_lines(
    state: ConfigurationFileView,
    lines: Seq<Seq<char>>,
    number: nat,
) -> ConfigurationFileView
    decreases lines.len(),
{
    if lines.len() == 0 {
        state
    } else {
        read_lines(read_line(state, lines[0], number), lines.skip(1), number + 1)
    }
}

/// What a marker file with the text `text` says. Lines are numbered from 1.
pub open spec fn says(text: Seq<char>) -> ConfigurationFileView {
    read_lines(
        ConfigurationFileView { id: None, name: None, warnings: Seq::empty() },
        split_lines(text),
        1,
    )
}

/// The extension by which a marker file is known.
pub open spec fn marker_suffix() -> Seq<char> {
    seq!['.', 'e', 'n', 'v', 'c', 'f', 'g']
}

/// Whether a file of this name is a marker file: the name ends in `.envcfg`
/// and has something before that.
pub open spec fn names_marker(name: Seq<char>) -> bool {
    name.len() > 7 && marker_suffix().is_suffix_of(name)
}

/// The characters of `text`, in order.
fn characters(text: &str) -> (r: Vec<char>)
    ensures
        r@ == text@,
{
    let mut r: Vec<char> = Vec::new();
    for c in it: text.chars()
        invariant
            r@ == it.seq().take(it.index()),
            it.seq() == text@,
    {
        r.push(c);
    }
    r
}

/// Whether `c` is white space.
fn whitespace(c: char) -> (r: bool)
    ensures
        r == is_whitespace(c),
{
    let u: u32 = c as u32;
    (0x09 <= u && u <= 0x0D) || u == 0x20 || u == 0x85 || u == 0xA0 || u == 0x1680 || (0x2000 <= u
        && u <= 0x200A) || u == 0x2028 || u == 0x2029 || u == 0x202F || u == 0x205F || u == 0x3000
}

/// The bounds of the value in `chars[from..to]`, which follows a prefix.
fn value_bounds(chars: &Vec<char>, from: usize, to: usize) -> (r: (usize, usize))
    requires
        from <= to <= chars.len(),
    ensures
        from <= r.0 <= r.1 <= to,
        chars@.subrange(r.0 as int, r.1 as int) == value_of(chars@.subrange(from as int, to as int)),
{
    let (a, b) = trim_bounds(chars, from, to);
    if a < b && chars[a] == ':' {
        assert(chars@.subrange(a as int, b as int).skip(1) =~= chars@.subrange(a as int + 1, b as int));
        trim_bounds(chars, a + 1, b)
    } else {
        (a, b)
    }
}

/// The bounds of `chars[from..to]` without its surrounding white space.
fn trim_bounds(chars: &Vec<char>, from: usize, to: usize) -> (r: (usize, usize))
    requires
        from <= to <= chars.len(),
    ensures
        from <= r.0 <= r.1 <= to,
        chars@.subrange(r.0 as int, r.1 as int) == trim(chars@.subrange(from as int, to as int)),
{
    let mut a: usize = from;
    while a < to && whitespace(chars[a])
        invariant
            from <= a <= to <= chars.len(),
            trim_start(chars@.subrange(from as int, to as int)) == trim_start(
                chars@.subrange(a as int, to as int),
            ),
        decreases to - a,
    {
        assert(chars@.subrange(a as int, to as int).skip(1) =~= chars@.subrange(
            a as int + 1,
            to as int,
        ));
        a += 1;
    }
    let mut b: usize = to;
    while a < b && whitespace(chars[b - 1])
        invariant
            from <= a <= b <= to <= chars.len(),
            trim_start(chars@.subrange(from as int, to as int)) == chars@.subrange(
                a as int,
                to as int,
            ),
            trim(chars@.subrange(from as int, to as int)) == trim_end(
                chars@.subrange(a as int, b as int),
            ),
        decreases b - a,
    {
        assert(chars@.subrange(a as int, b as int).drop_last() =~= chars@.subrange(
            a as int,
            b as int - 1,
        ));
        b -= 1;
    }
    (a, b)
}

/// Appending digits never makes the number smaller.
proof fn lemma_digits_value_grows(s: Seq<char>, k: int)
    requires
        0 <= k <= s.len(),
        forall|j: int| 0 <= j < s.len() ==> is_digit(#[trigger] s[j]),
    ensures
        0 <= digits_value(s.take(k)) <= digits_value(s),
    decreases s.len() - k,
{
    lemma_digits_value_nonnegative(s.take(k));
    if k < s.len() {
        lemma_digits_value_grows(s, k + 1);
        assert(s.take(k + 1).drop_last() =~= s.take(k));
    } else {
        assert(s.take(k) =~= s);
    }
}

/// A sequence of digits writes no negative number.
proof fn lemma_digits_value_nonnegative(s: Seq<char>)
    requires
        forall|j: int| 0 <= j < s.len() ==> is_digit(#[trigger] s[j]),
    ensures
        0 <= digits_value(s),
    decreases s.len(),
{
    if s.len() > 0 {
        lemma_digits_value_nonnegative(s.drop_last());
    }
}

/// Reads `chars[from..to]` as an integer.
fn parse_number(chars: &Vec<char>, from: usize, to: usize) -> (r: Option<i32>)
    requires
        from <= to <= chars.len(),
    ensures
        r == parse_i32(chars@.subrange(from as int, to as int)),
{
    let ghost s = chars@.subrange(from as int, to as int);
    if from == to {
        return None;
    }
    let negative = chars[from] == '-';
    let first: usize = if negative || chars[from] == '+' {
        from + 1
    } else {
        from
    };
    let ghost digits = chars@.subrange(first as int, to as int);
    assert(digits =~= if first > from {
        s.skip(1)
    } else {
        s
    });
    if first == to {
        return None;
    }
    let mut value: i64 = 0;
    let mut i: usize = first;
    while i < to
        invariant
            from <= first <= i <= to <= chars.len(),
            s == chars@.subrange(from as int, to as int),
            digits == chars@.subrange(first as int, to as int),
            parse_i32(s) == signed_value(negative, digits),
            forall|k: int| 0 <= k < i - first ==> is_digit(#[trigger] digits[k]),
            value == digits_value(digits.take(i - first)),
            0 <= value <= 2147483648,
        decreases to - i,
    {
        let c = chars[i];
        let u: u32 = c as u32;
        if u < '0' as u32 || u > '9' as u32 {
            assert(!is_digit(digits[i - first]));
            return None;
        }
        assert(digits.take(i - first + 1).drop_last() =~= digits.take(i - first));
        value = value * 10 + (u - '0' as u32) as i64;
        if value > 2147483648 {
            proof {
                if forall|k: int| 0 <= k < digits.len() ==> is_digit(#[trigger] digits[k]) {
                    lemma_digits_value_grows(digits, i - first + 1);
                }
            }
            return None;
        }
        i += 1;
    }
    assert(digits.take(to - first) =~= digits);
    if negative {
        Some((-value) as i32)
    } else if value <= 2147483647 {
        Some(value as i32)
    } else {
        None
    }
}

/// Whether `chars[from..to]` starts with `id`.
fn starts_with_id(chars: &Vec<char>, from: usize, to: usize) -> (r: bool)
    requires
        from <= to <= chars.len(),
    ensures
        r == id_prefix().is_prefix_of(chars@.subrange(from as int, to as int)),
{
    if to - from < 2 {
        return false;
    }
    let r = chars[from] == 'i' && chars[from + 1] == 'd';
    r
}

/// Whether `chars[from..to]` starts with `name`.
fn starts_with_name(chars: &Vec<char>, from: usize, to: usize) -> (r: bool)
    requires
        from <= to <= chars.len(),
    ensures
        r == name_prefix().is_prefix_of(chars@.subrange(from as int, to as int)),
{
    if to - from < 4 {
        return false;
    }
    let r = chars[from] == 'n' && chars[from + 1] == 'a' && chars[from + 2] == 'm' && chars[from
        + 3] == 'e';
    r
}

/// Whether the file name `name` is that of a marker file.
pub fn is_marker_name(name: &str) -> (r: bool)
    ensures
        r == names_marker(name@),
{
    let chars = characters(name);
    let n = chars.len();
    if n <= 7 {
        return false;
    }
    let r = chars[n - 7] == '.' && chars[n - 6] == 'e' && chars[n - 5] == 'n' && chars[n - 4] == 'v'
        && chars[n - 3] == 'c' && chars[n - 2] == 'f' && chars[n - 1] == 'g';
    r
}

/// The first line of `s` ends at the first line feed, or with `s`.
proof fn lemma_line_end(s: Seq<char>, end: int)
    requires
        0 <= end <= s.len(),
        forall|k: int| 0 <= k < end ==> s[k] != '\n',
        end < s.len() ==> s[end] == '\n',
    ensures
        line_end(s) == end,
    decreases end,
{
    if end > 0 {
        lemma_line_end(s.skip(1), end - 1);
    }
}

/// Reads the text of a marker file.
pub fn analyze_file(string: &str) -> (file: ConfigurationFile)
    ensures
        file@ == says(string@),
{
    let chars = characters(string);
    let mut file = ConfigurationFile { id: None, name: None, warnings: Vec::new() };
    let mut start: usize = 0;
    let mut newlines: usize = 0;
    assert(chars@.skip(0) =~= chars@);
    loop
        invariant_except_break
            says(string@) == read_lines(
                file@,
                split_lines(chars@.skip(start as int)),
                (newlines + 1) as nat,
            ),
        invariant
            chars@ == string@,
            newlines <= start <= chars.len(),
        ensures
            file@ == says(string@),
        decreases chars.len() - start,
    {
        let ghost rest = chars@.skip(start as int);
        let mut end: usize = start;
        while end < chars.len() && chars[end] != '\n'
            invariant
                start <= end <= chars.len(),
                forall|k: int| start <= k < end ==> chars[k] != '\n',
            decreases chars.len() - end,
        {
            end += 1;
        }
        let ghost line = chars@.subrange(start as int, end as int);
        proof {
            lemma_line_end(rest, end - start);
            assert(rest.take(end - start) =~= line);
            if end < chars.len() {
                assert(rest.skip(end - start + 1) =~= chars@.skip(end as int + 1));
                assert(split_lines(rest).skip(1) =~= split_lines(chars@.skip(end as int + 1)));
            }
        }
        if starts_with_id(&chars, start, end) {
            assert(line.skip(2) =~= chars@.subrange(start as int + 2, end as int));
            let (a, b) = value_bounds(&chars, start + 2, end);
            let number: usize = newlines + 1;
            match parse_number(&chars, a, b) {
                Some(id) => {
                    match file.id {
                        Some(previous) => {
                            file.warnings.push(Warning::Overridden { previous, id, line: number });
                        },
                        None => {},
                    }
                    file.id = Some(id);
                },
                None => {
                    file.warnings.push(Warning::Malformed { line: number });
                },
            }
        } else if starts_with_name(&chars, start, end) {
            assert(line.skip(4) =~= chars@.subrange(start as int + 4, end as int));
            let (a, b) = value_bounds(&chars, start + 4, end);
            file.name = Some(string.substring_char(a, b).to_owned());
        }
        if end == chars.len() {
            assert(read_lines(file@, Seq::<Seq<char>>::empty(), (newlines + 2) as nat) == file@);
            break ;
        }
        start = end + 1;
        newlines += 1;
    }
    file
}

} // verus!
