//! The validated data model: attribute names, values and attributes.
//!
//! A [`Name`] is a validated attribute identifier. A [`Value`] holds the
//! content of an attribute, either as one optional line or as an ordered
//! sequence of optional lines, where a line that was empty or
//! all-whitespace is stored as absent. An [`Attribute`] pairs the two.
//!
//! Validated construction checks the character classes of [`crate::lexis`];
//! the grammar in [`crate::parser`] instead proves those classes while
//! matching and uses the crate-private unchecked constructors, which only
//! perform empty-to-absent coercion.

use vstd::prelude::*;

use crate::error::InvalidNameError;
use crate::error::InvalidValueError;
use crate::lexis;

verus! {

// ---------------------------------------------------------------------------
// Specification-level model
// ---------------------------------------------------------------------------
/// The mathematical content of a [`Value`]: either one optional line or an
/// ordered sequence of optional lines. An absent line stands for a physical
/// line that was empty or all-whitespace.
pub enum ValueModel {
    Single(Option<Seq<char>>),
    Multi(Seq<Option<Seq<char>>>),
}

/// Empty-value coercion at the specification level: a blank line is stored
/// as absent, any other line is stored unchanged.
pub open spec fn coerced(line: Seq<char>) -> Option<Seq<char>> {
    if lexis::blank_seq(line) {
        None
    } else {
        Some(line)
    }
}

/// The content of one stored line.
pub open spec fn line_view(line: Option<String>) -> Option<Seq<char>> {
    match line {
        Some(s) => Some(s@),
        None => None,
    }
}

/// The contents of a sequence of stored lines.
pub open spec fn lines_view(lines: Seq<Option<String>>) -> Seq<Option<Seq<char>>> {
    lines.map_values(|line: Option<String>| line_view(line))
}

/// A line is valid value content: entirely ASCII with no control characters.
pub open spec fn line_ok(line: Seq<char>) -> bool {
    lexis::ascii_seq(line) && !lexis::has_ascii_control(line)
}

/// A stored line is well formed: if present, it is non-blank, entirely
/// ASCII and free of control characters.
pub open spec fn stored_line_wf(line: Option<Seq<char>>) -> bool {
    line matches Some(s) ==> !lexis::blank_seq(s) && line_ok(s)
}

/// The error reported for invalid value content: a non-ASCII character is
/// reported before a control character.
pub open spec fn expected_value_error(s: Seq<char>) -> InvalidValueError {
    if !lexis::ascii_seq(s) {
        InvalidValueError::NonAscii
    } else {
        InvalidValueError::ContainsControlChar
    }
}

// ---------------------------------------------------------------------------
// Name
// ---------------------------------------------------------------------------
/// A name passes validated construction: non-blank, entirely ASCII, first
/// character an ASCII letter, last character an ASCII letter or digit.
pub open spec fn name_semantic_valid(s: Seq<char>) -> bool {
    &&& !lexis::blank_seq(s)
    &&& lexis::ascii_seq(s)
    &&& lexis::ascii_alphabetic_char(s[0])
    &&& lexis::ascii_alphanumeric_char(s[s.len() - 1])
}

/// A name token matched by the grammar: at least two characters, all drawn
/// from the name character class, beginning with a letter and ending with a
/// letter or digit. This is stricter than [`name_semantic_valid`].
pub open spec fn name_grammar_valid(s: Seq<char>) -> bool {
    &&& s.len() >= 2
    &&& forall|i: int| 0 <= i < s.len() ==> lexis::name_char(#[trigger] s[i])
    &&& lexis::ascii_alphabetic_char(s[0])
    &&& lexis::ascii_alphanumeric_char(s[s.len() - 1])
}

/// The error reported for an invalid name. Emptiness is checked first,
/// since the first- and last-character checks are undefined on empty input.
pub open spec fn expected_name_error(s: Seq<char>) -> InvalidNameError {
    if lexis::blank_seq(s) {
        InvalidNameError::Empty
    } else if !lexis::ascii_seq(s) {
        InvalidNameError::NonAscii
    } else if !lexis::ascii_alphabetic_char(s[0]) {
        InvalidNameError::NonAsciiAlphabeticFirstChar
    } else {
        InvalidNameError::NonAsciiAlphanumericLastChar
    }
}

/// Every name the grammar matches also passes validated construction.
pub proof fn lemma_grammar_name_is_semantic(s: Seq<char>)
    requires
        name_grammar_valid(s),
    ensures
        name_semantic_valid(s),
{
    assert(!lexis::whitespace_char(s[0]));
    assert(!lexis::blank_seq(s));
}

/// The name of an attribute: a validated identifier.
#[derive(Clone, Debug, PartialEq, Eq)]
pub struct Name(String);

impl View for Name {
    type V = Seq<char>;

    closed spec fn view(&self) -> Seq<char> {
        self.0@
    }
}

impl Name {
    /// The stored identifier passes validated construction.
    pub open spec fn wf(&self) -> bool {
        name_semantic_valid(self@)
    }

    /// Create a `Name` from a string slice.
    ///
    /// A valid name may consist of ASCII characters, beginning with a
    /// letter and ending with a letter or a digit. Emptiness is reported
    /// first, then a non-ASCII character, then the first-character rule,
    /// then the last-character rule.
    pub fn from_str(name: &str) -> (r: Result<Name, InvalidNameError>)
        ensures
            r is Ok <==> name_semantic_valid(name@),
            r matches Ok(n) ==> n@ == name@ && n.wf(),
            r matches Err(e) ==> e == expected_name_error(name@),
    {
        if lexis::str_is_blank(name) {
            return Err(InvalidNameError::Empty);
        }
        if !lexis::str_all_ascii(name) {
            return Err(InvalidNameError::NonAscii);
        }
        let len: usize = name.unicode_len();
        proof {
            if name@.len() == 0 {
                assert(lexis::blank_seq(name@));
            }
        }
        if !lexis::is_ascii_alphabetic_char(name.get_char(0)) {
            return Err(InvalidNameError::NonAsciiAlphabeticFirstChar);
        }
        if !lexis::is_ascii_alphanumeric_char(name.get_char(len - 1)) {
            return Err(InvalidNameError::NonAsciiAlphanumericLastChar);
        }
        Ok(Name(name.to_owned()))
    }

    /// Construct a `Name` from a token the grammar has already matched,
    /// skipping revalidation. The grammar's character-class match
    /// guarantees the invariants of validated construction.
    pub(crate) fn unchecked(name: String) -> (n: Name)
        requires
            name_grammar_valid(name@),
        ensures
            n@ == name@,
            n.wf(),
    {
        proof {
            lemma_grammar_name_is_semantic(name@);
        }
        Name(name)
    }

    /// The identifier as a string slice.
    pub fn as_str(&self) -> (r: &str)
        ensures
            r@ == self@,
    {
        self.0.as_str()
    }
}

// ---------------------------------------------------------------------------
// Value
// ---------------------------------------------------------------------------
/// The value of an attribute: one optional line, or an ordered sequence of
/// optional lines when the attribute spans continuation lines.
#[derive(Clone, Debug, PartialEq, Eq)]
pub enum Value {
    SingleLine(Option<String>),
    MultiLine(Vec<Option<String>>),
}

impl View for Value {
    type V = ValueModel;

    open spec fn view(&self) -> ValueModel {
        match self {
            Value::SingleLine(line) => ValueModel::Single(line_view(*line)),
            Value::MultiLine(lines) => ValueModel::Multi(lines_view(lines@)),
        }
    }
}

/// The number of individual values a model contains: one for a single
/// line, the element count otherwise.
pub open spec fn value_model_len(v: ValueModel) -> nat {
    match v {
        ValueModel::Single(_) => 1,
        ValueModel::Multi(lines) => lines.len(),
    }
}

impl Value {
    /// Every stored line, if present, is non-blank, entirely ASCII and
    /// free of control characters.
    pub open spec fn wf(&self) -> bool {
        match self@ {
            ValueModel::Single(line) => stored_line_wf(line),
            ValueModel::Multi(lines) => forall|i: int|
                0 <= i < lines.len() ==> stored_line_wf(#[trigger] lines[i]),
        }
    }

    /// Check that a string is valid value content: entirely ASCII, with no
    /// control characters. A non-ASCII character is reported first.
    pub fn validate(value: &str) -> (r: Result<(), InvalidValueError>)
        ensures
            r is Ok <==> line_ok(value@),
            r matches Err(e) ==> e == expected_value_error(value@),
    {
        if !lexis::str_all_ascii(value) {
            return Err(InvalidValueError::NonAscii);
        }
        if lexis::str_has_ascii_control(value) {
            return Err(InvalidValueError::ContainsControlChar);
        }
        Ok(())
    }

    /// Create a single-line `Value` from a string slice.
    ///
    /// A valid value may consist of any ASCII character, excluding control
    /// characters. A blank value is stored as absent.
    pub fn from_str(value: &str) -> (r: Result<Value, InvalidValueError>)
        ensures
            r is Ok <==> line_ok(value@),
            r matches Ok(v) ==> v@ == ValueModel::Single(coerced(value@)) && v.wf(),
            r matches Err(e) ==> e == expected_value_error(value@),
    {
        match Value::validate(value) {
            Ok(_) => Ok(Value::SingleLine(coerce_empty_value(value.to_owned()))),
            Err(e) => Err(e),
        }
    }

    /// Create a `Value` from an ordered list of lines.
    ///
    /// A one-element list collapses to a single-line value. Validation
    /// stops at, and reports, the first invalid element in list order.
    pub fn try_from_lines(values: Vec<&str>) -> (r: Result<Value, InvalidValueError>)
        ensures
            r is Ok <==> (forall|i: int| 0 <= i < values@.len() ==> line_ok(#[trigger] values@[i]@)),
            r matches Err(e) ==> exists|i: int|
                0 <= i < values@.len() && !line_ok(#[trigger] values@[i]@) && e
                    == expected_value_error(values@[i]@) && (forall|j: int|
                    0 <= j < i ==> line_ok(#[trigger] values@[j]@)),
            r matches Ok(v) ==> v.wf() && (if values@.len() == 1 {
                v@ == ValueModel::Single(coerced(values@[0]@))
            } else {
                v@ == ValueModel::Multi(
                    Seq::new(values@.len(), |i: int| coerced(values@[i]@)),
                )
            }),
    {
        if values.len() == 1 {
            let first: &str = values[0];
            match Value::from_str(first) {
                Ok(v) => Ok(v),
                Err(e) => Err(e),
            }
        } else {
            let mut out: Vec<Option<String>> = Vec::new();
            let n: usize = values.len();
            let mut i: usize = 0;
            while i < n
                invariant
                    i <= n,
                    n == values@.len(),
                    out@.len() == i,
                    forall|j: int| 0 <= j < i ==> line_ok(#[trigger] values@[j]@),
                    forall|j: int|
                        0 <= j < i ==> line_view(#[trigger] out@[j]) == coerced(values@[j]@),
                decreases n - i,
            {
                let line: &str = values[i];
                match Value::validate(line) {
                    Ok(_) => {
                        out.push(coerce_empty_value(line.to_owned()));
                    },
                    Err(e) => {
                        return Err(e);
                    },
                }
                i = i + 1;
            }
            let v = Value::MultiLine(out);
            proof {
                assert(lines_view(out@) =~= Seq::new(values@.len(), |i: int| coerced(values@[i]@)));
                assert forall|i: int|
                    0 <= i < lines_view(out@).len() implies stored_line_wf(
                    #[trigger] lines_view(out@)[i],
                ) by {
                    assert(line_view(out@[i]) == coerced(values@[i]@));
                }
            }
            Ok(v)
        }
    }

    /// Build a single-line `Value` from a line the grammar has already
    /// matched, performing only empty-to-absent coercion.
    pub(crate) fn unchecked_single(value: String) -> (v: Value)
        requires
            lexis::value_seq(value@),
        ensures
            v@ == ValueModel::Single(coerced(value@)),
            v.wf(),
    {
        proof {
            lemma_value_seq_line_ok(value@);
        }
        Value::SingleLine(coerce_empty_value(value))
    }

    /// Build a multi-line `Value` from the lines the grammar has already
    /// matched, performing only empty-to-absent coercion. The grammar only
    /// produces a multi-line value where at least one continuation line
    /// follows the first.
    pub(crate) fn unchecked_multi(values: Vec<String>) -> (v: Value)
        requires
            values@.len() >= 2,
            forall|i: int| 0 <= i < values@.len() ==> lexis::value_seq(#[trigger] values@[i]@),
        ensures
            v@ == ValueModel::Multi(Seq::new(values@.len(), |i: int| coerced(values@[i]@))),
            v.wf(),
    {
        let mut out: Vec<Option<String>> = Vec::new();
        let n: usize = values.len();
        let mut i: usize = 0;
        while i < n
            invariant
                i <= n,
                n == values@.len(),
                out@.len() == i,
                forall|j: int| 0 <= j < values@.len() ==> lexis::value_seq(#[trigger] values@[j]@),
                forall|j: int| 0 <= j < i ==> line_view(#[trigger] out@[j]) == coerced(values@[j]@),
            decreases n - i,
        {
            let line: &String = &values[i];
            if lexis::str_is_blank(line.as_str()) {
                out.push(None);
            } else {
                out.push(Some(line.clone()));
            }
            i = i + 1;
        }
        let v = Value::MultiLine(out);
        proof {
            assert(lines_view(out@) =~= Seq::new(values@.len(), |i: int| coerced(values@[i]@)));
            assert forall|i: int|
                0 <= i < lines_view(out@).len() implies stored_line_wf(
                #[trigger] lines_view(out@)[i],
            ) by {
                assert(line_view(out@[i]) == coerced(values@[i]@));
                lemma_value_seq_line_ok(values@[i]@);
            }
        }
        v
    }

    /// The number of individual values contained.
    pub fn len(&self) -> (r: usize)
        ensures
            r == value_model_len(self@),
    {
        match self {
            Value::SingleLine(_) => 1,
            Value::MultiLine(values) => values.len(),
        }
    }

    /// The lines that hold content, in order, with absent lines left out.
    pub fn with_content<'a>(&'a self) -> (r: Vec<&'a str>)
        ensures
            r@.map_values(|t: &str| t@) == value_content(self@),
    {
        match self {
            Value::SingleLine(line) => {
                let mut r: Vec<&str> = Vec::new();
                match line {
                    Some(v) => {
                        r.push(v.as_str());
                    },
                    None => {},
                }
                proof {
                    assert(r@.map_values(|t: &str| t@) =~= value_content(self@));
                }
                r
            },
            Value::MultiLine(lines) => {
                let mut r: Vec<&str> = Vec::new();
                let n: usize = lines.len();
                let mut i: usize = 0;
                while i < n
                    invariant
                        i <= n,
                        n == lines@.len(),
                        r@.map_values(|t: &str| t@) == present_lines(
                            lines_view(lines@).take(i as int),
                        ),
                    decreases n - i,
                {
                    let ghost prefix = lines_view(lines@).take(i as int);
                    let ghost prev = r@.map_values(|t: &str| t@);
                    match &lines[i] {
                        Some(v) => {
                            r.push(v.as_str());
                        },
                        None => {},
                    }
                    proof {
                        lemma_present_lines_push(prefix, lines_view(lines@)[i as int]);
                        assert(lines_view(lines@).take(i + 1) =~= prefix.push(
                            lines_view(lines@)[i as int],
                        ));
                        assert(r@.map_values(|t: &str| t@) =~= prev + one_line(
                            lines_view(lines@)[i as int],
                        ));
                    }
                    i = i + 1;
                }
                proof {
                    assert(lines_view(lines@).take(n as int) =~= lines_view(lines@));
                }
                r
            },
        }
    }

    /// Content-based comparison with one string: a multi-line value never
    /// equals a string; a present single line must match it exactly; an
    /// absent single line equals any blank string.
    pub fn eq_str(&self, other: &str) -> (b: bool)
        ensures
            b == single_eq_str(self@, other@),
    {
        match self {
            Value::MultiLine(_) => false,
            Value::SingleLine(line) => match line {
                Some(v) => lexis::str_eq_content(v.as_str(), other),
                None => lexis::str_is_blank(other),
            },
        }
    }

    /// Content-based comparison with a list of lines: a single-line value
    /// never equals a list; a multi-line value equals it when the lengths
    /// match and each stored line equals the coerced list element.
    pub fn eq_lines(&self, other: &Vec<&str>) -> (b: bool)
        ensures
            b == multi_eq_lines(self@, other@.map_values(|t: &str| t@)),
    {
        let ghost others = other@.map_values(|t: &str| t@);
        match self {
            Value::SingleLine(_) => false,
            Value::MultiLine(lines) => {
                if lines.len() != other.len() {
                    return false;
                }
                let n: usize = lines.len();
                let mut i: usize = 0;
                while i < n
                    invariant
                        i <= n,
                        n == lines@.len(),
                        n == other@.len(),
                        others == other@.map_values(|t: &str| t@),
                        self@ matches ValueModel::Multi(ls) && ls == lines_view(lines@),
                        forall|j: int|
                            0 <= j < i ==> line_view(#[trigger] lines@[j]) == coerced(others[j]),
                    decreases n - i,
                {
                    let o: &str = other[i];
                    let matches_elem: bool = match &lines[i] {
                        Some(v) => !lexis::str_is_blank(o) && lexis::str_eq_content(
                            v.as_str(),
                            o,
                        ),
                        None => lexis::str_is_blank(o),
                    };
                    proof {
                        assert(others[i as int] == other@[i as int]@);
                        assert(lines_view(lines@)[i as int] == line_view(lines@[i as int]));
                        assert(matches_elem == (line_view(lines@[i as int]) == coerced(
                            others[i as int],
                        )));
                    }
                    if !matches_elem {
                        return false;
                    }
                    i = i + 1;
                }
                true
            },
        }
    }

    /// Position-exact comparison with a list of optional lines: present and
    /// absent positions must agree, and present content must match exactly.
    /// No coercion is applied to the list elements.
    pub fn eq_opt_lines(&self, other: &Vec<Option<&str>>) -> (b: bool)
        ensures
            b == multi_eq_opt_lines(self@, other@.map_values(|t: Option<&str>| opt_str_view(t))),
    {
        let ghost others = other@.map_values(|t: Option<&str>| opt_str_view(t));
        match self {
            Value::SingleLine(_) => false,
            Value::MultiLine(lines) => {
                if lines.len() != other.len() {
                    return false;
                }
                let n: usize = lines.len();
                let mut i: usize = 0;
                while i < n
                    invariant
                        i <= n,
                        n == lines@.len(),
                        n == other@.len(),
                        others == other@.map_values(|t: Option<&str>| opt_str_view(t)),
                        self@ matches ValueModel::Multi(ls) && ls == lines_view(lines@),
                        forall|j: int| 0 <= j < i ==> line_view(#[trigger] lines@[j]) == others[j],
                    decreases n - i,
                {
                    let matches_elem: bool = match (&lines[i], &other[i]) {
                        (Some(v), Some(o)) => lexis::str_eq_content(v.as_str(), o),
                        (None, None) => true,
                        _ => false,
                    };
                    proof {
                        assert(others[i as int] == opt_str_view(other@[i as int]));
                        assert(lines_view(lines@)[i as int] == line_view(lines@[i as int]));
                        assert(matches_elem == (line_view(lines@[i as int]) == others[i as int]));
                    }
                    if !matches_elem {
                        return false;
                    }
                    i = i + 1;
                }
                true
            },
        }
    }
}

/// A list of lines with one entry per present line: one line of content or
/// nothing.
pub open spec fn one_line(line: Option<Seq<char>>) -> Seq<Seq<char>> {
    match line {
        Some(l) => seq![l],
        None => Seq::empty(),
    }
}

/// The present lines of a sequence of stored lines, in order.
pub open spec fn present_lines(lines: Seq<Option<Seq<char>>>) -> Seq<Seq<char>>
    decreases lines.len(),
{
    if lines.len() == 0 {
        Seq::empty()
    } else {
        one_line(lines[0]) + present_lines(lines.drop_first())
    }
}

/// The present lines of a whole value model.
pub open spec fn value_content(v: ValueModel) -> Seq<Seq<char>> {
    match v {
        ValueModel::Single(line) => one_line(line),
        ValueModel::Multi(lines) => present_lines(lines),
    }
}

/// Appending one stored line extends the present lines by its content.
pub proof fn lemma_present_lines_push(lines: Seq<Option<Seq<char>>>, x: Option<Seq<char>>)
    ensures
        present_lines(lines.push(x)) == present_lines(lines) + one_line(x),
    decreases lines.len(),
{
    if lines.len() == 0 {
        let rest = lines.push(x).drop_first();
        assert(rest =~= Seq::<Option<Seq<char>>>::empty());
        assert(present_lines(rest) =~= Seq::<Seq<char>>::empty());
        assert(present_lines(lines.push(x)) =~= one_line(x) + present_lines(rest));
        assert(one_line(x) + present_lines(rest) =~= one_line(x));
        assert(present_lines(lines) + one_line(x) =~= one_line(x));
    } else {
        assert(lines.push(x).drop_first() =~= lines.drop_first().push(x));
        lemma_present_lines_push(lines.drop_first(), x);
        assert(present_lines(lines.push(x)) =~= present_lines(lines) + one_line(x));
    }
}

/// What it means for a value to equal one string: only a single-line value
/// can, a present line by exact content, an absent line by the string being
/// blank.
pub open spec fn single_eq_str(v: ValueModel, other: Seq<char>) -> bool {
    match v {
        ValueModel::Single(line) => match line {
            Some(s) => s == other,
            None => lexis::blank_seq(other),
        },
        ValueModel::Multi(_) => false,
    }
}

/// What it means for a value to equal a list of lines: only a multi-line
/// value can, with equal length and each stored line equal to the coerced
/// list element.
pub open spec fn multi_eq_lines(v: ValueModel, others: Seq<Seq<char>>) -> bool {
    match v {
        ValueModel::Single(_) => false,
        ValueModel::Multi(lines) => lines.len() == others.len() && forall|i: int|
            0 <= i < lines.len() ==> #[trigger] lines[i] == coerced(others[i]),
    }
}

/// What it means for a value to equal a list of optional lines: only a
/// multi-line value can, position by position, without coercion.
pub open spec fn multi_eq_opt_lines(v: ValueModel, others: Seq<Option<Seq<char>>>) -> bool {
    match v {
        ValueModel::Single(_) => false,
        ValueModel::Multi(lines) => lines.len() == others.len() && forall|i: int|
            0 <= i < lines.len() ==> #[trigger] lines[i] == others[i],
    }
}

/// The content of an optional string slice.
pub open spec fn opt_str_view(t: Option<&str>) -> Option<Seq<char>> {
    match t {
        Some(s) => Some(s@),
        None => None,
    }
}

/// A run of value characters is entirely ASCII and free of control
/// characters.
pub proof fn lemma_value_seq_line_ok(s: Seq<char>)
    requires
        lexis::value_seq(s),
    ensures
        line_ok(s),
{
}

/// Coerce a blank value to absent; keep any other value unchanged,
/// untrimmed.
pub fn coerce_empty_value(value: String) -> (r: Option<String>)
    ensures
        line_view(r) == coerced(value@),
{
    if lexis::str_is_blank(value.as_str()) {
        None
    } else {
        Some(value)
    }
}

// ---------------------------------------------------------------------------
// Attribute
// ---------------------------------------------------------------------------
/// An attribute of an RPSL object: one name paired with one value.
#[derive(Clone, Debug, PartialEq, Eq)]
pub struct Attribute {
    /// The name of the attribute.
    pub name: Name,
    /// The value(s) of the attribute.
    pub value: Value,
}

/// The width of the name column in rendered text: the name, its colon and
/// the padding after it span this many characters when they fit.
pub open spec fn name_column_width() -> nat {
    16
}

/// A sequence left-justified in the name column: padded with spaces up to
/// the column width, kept as it is when longer.
pub open spec fn pad_name_column(s: Seq<char>) -> Seq<char> {
    if s.len() >= name_column_width() {
        s
    } else {
        s + Seq::new((name_column_width() - s.len()) as nat, |i: int| ' ')
    }
}

/// The text of one stored line: its content, or nothing when absent.
pub open spec fn line_text(line: Option<Seq<char>>) -> Seq<char> {
    match line {
        Some(s) => s,
        None => Seq::empty(),
    }
}

/// The first rendered line: the name and a colon, left-justified in the
/// name column, then the first value line and a line terminator.
pub open spec fn rendered_head(name: Seq<char>, first: Option<Seq<char>>) -> Seq<char> {
    pad_name_column(name + seq![':']) + line_text(first) + seq!['\n']
}

/// One rendered continuation line: indented to align under the first value
/// line, then the line's content and a line terminator.
pub open spec fn rendered_continuation(line: Option<Seq<char>>) -> Seq<char> {
    Seq::new(name_column_width(), |i: int| ' ') + line_text(line) + seq!['\n']
}

/// The rendered continuation lines, in order.
pub open spec fn rendered_continuations(lines: Seq<Option<Seq<char>>>) -> Seq<char>
    decreases lines.len(),
{
    if lines.len() == 0 {
        Seq::empty()
    } else {
        rendered_continuation(lines[0]) + rendered_continuations(lines.drop_first())
    }
}

/// The full rendered text of an attribute: the head line, then one line
/// per continuation value.
pub open spec fn rendered(name: Seq<char>, value: ValueModel) -> Seq<char> {
    match value {
        ValueModel::Single(line) => rendered_head(name, line),
        ValueModel::Multi(lines) => rendered_head(name, lines[0]) + rendered_continuations(
            lines.drop_first(),
        ),
    }
}

/// Appending one stored line extends the rendered continuations by one
/// rendered line.
pub proof fn lemma_rendered_continuations_push(lines: Seq<Option<Seq<char>>>, x: Option<Seq<char>>)
    ensures
        rendered_continuations(lines.push(x)) == rendered_continuations(lines)
            + rendered_continuation(x),
    decreases lines.len(),
{
    if lines.len() == 0 {
        let rest = lines.push(x).drop_first();
        assert(rest =~= Seq::<Option<Seq<char>>>::empty());
        assert(rendered_continuations(rest) =~= Seq::<char>::empty());
        assert(rendered_continuations(lines.push(x)) =~= rendered_continuation(x)
            + rendered_continuations(rest));
        assert(rendered_continuation(x) + rendered_continuations(rest) =~= rendered_continuation(
            x,
        ));
        assert(rendered_continuations(lines) + rendered_continuation(x) =~= rendered_continuation(
            x,
        ));
    } else {
        assert(lines.push(x).drop_first() =~= lines.drop_first().push(x));
        lemma_rendered_continuations_push(lines.drop_first(), x);
        assert(rendered_continuations(lines.push(x)) =~= rendered_continuations(lines)
            + rendered_continuation(x));
    }
}

impl Attribute {
    /// Both parts are well formed.
    pub open spec fn wf(&self) -> bool {
        self.name.wf() && self.value.wf()
    }

    /// Create a new attribute from a validated name and value.
    pub fn new(name: Name, value: Value) -> (r: Attribute)
        ensures
            r.name == name,
            r.value == value,
    {
        Attribute { name, value }
    }

    /// Build an attribute from a name token and a single value line the
    /// grammar has already matched, skipping revalidation.
    pub(crate) fn unchecked_single(name: String, value: String) -> (r: Attribute)
        requires
            name_grammar_valid(name@),
            lexis::value_seq(value@),
        ensures
            r.name@ == name@,
            r.value@ == ValueModel::Single(coerced(value@)),
            r.wf(),
    {
        let name = Name::unchecked(name);
        let value = Value::unchecked_single(value);
        Attribute { name, value }
    }

    /// Build an attribute from a name token and the value lines the
    /// grammar has already matched, skipping revalidation.
    pub(crate) fn unchecked_multi(name: String, values: Vec<String>) -> (r: Attribute)
        requires
            name_grammar_valid(name@),
            values@.len() >= 2,
            forall|i: int| 0 <= i < values@.len() ==> lexis::value_seq(#[trigger] values@[i]@),
        ensures
            r.name@ == name@,
            r.value@ == ValueModel::Multi(Seq::new(values@.len(), |i: int| coerced(values@[i]@))),
            r.wf(),
    {
        let name = Name::unchecked(name);
        let value = Value::unchecked_multi(values);
        Attribute { name, value }
    }

    /// Render the attribute as text: the name left-justified in a fixed
    /// width column, a colon, and the first value line; every further value
    /// line on its own line, indented to align under the first, with absent
    /// lines rendered empty.
    pub fn to_text(&self) -> (r: String)
        requires
            self.value@ matches ValueModel::Multi(lines) ==> lines.len() >= 1,
        ensures
            r@ == rendered(self.name@, self.value@),
    {
        proof {
            reveal_strlit(":");
            reveal_strlit(" ");
            reveal_strlit("\n");
        }
        let mut out = String::new();
        out.append(self.name.as_str());
        out.append(":");
        let head_len: usize = out.as_str().unicode_len();
        proof {
            assert(out@ =~= self.name@ + seq![':']);
        }
        let mut pad: usize = head_len;
        while pad < 16
        invariant
            head_len <= pad,
            pad <= 16 || pad == head_len,
            head_len == self.name@.len() + 1,
            out@ =~= (self.name@ + seq![':']) + Seq::new((pad - head_len) as nat, |i: int| ' '),
        decreases 16 - pad,
        {
            proof {
                reveal_strlit(" ");
            }
            out.append(" ");
            proof {
                assert(out@ =~= (self.name@ + seq![':']) + Seq::new(
                    (pad + 1 - head_len) as nat,
                    |i: int| ' ',
                ));
            }
            pad = pad + 1;
        }
        proof {
            assert(out@ =~= pad_name_column(self.name@ + seq![':']));
        }
        match &self.value {
            Value::SingleLine(line) => {
                match line {
                    Some(v) => {
                        out.append(v.as_str());
                    },
                    None => {},
                }
                proof {
                    reveal_strlit("\n");
                }
                out.append("\n");
                proof {
                    assert(out@ =~= rendered(self.name@, self.value@));
                }
                out
            },
            Value::MultiLine(lines) => {
                match &lines[0] {
                    Some(v) => {
                        out.append(v.as_str());
                    },
                    None => {},
                }
                proof {
                    reveal_strlit("\n");
                }
                out.append("\n");
                let ghost head = rendered_head(self.name@, lines_view(lines@)[0]);
                proof {
                    assert(out@ =~= head);
                }
                let n: usize = lines.len();
                let mut i: usize = 1;
                while i < n
                    invariant
                        1 <= i <= n,
                        n == lines@.len(),
                        head == rendered_head(self.name@, lines_view(lines@)[0]),
                        out@ == head + rendered_continuations(
                            lines_view(lines@).subrange(1, i as int),
                        ),
                    decreases n - i,
                {
                    let ghost prefix = lines_view(lines@).subrange(1, i as int);
                    let ghost before = out@;
                    let mut pad2: usize = 0;
                    while pad2 < 16
                        invariant
                            pad2 <= 16,
                            out@ =~= before + Seq::new(pad2 as nat, |k: int| ' '),
                        decreases 16 - pad2,
                    {
                        proof {
                            reveal_strlit(" ");
                        }
                        out.append(" ");
                        proof {
                            assert(out@ =~= before + Seq::new((pad2 + 1) as nat, |k: int| ' '));
                        }
                        pad2 = pad2 + 1;
                    }
                    match &lines[i] {
                        Some(v) => {
                            out.append(v.as_str());
                        },
                        None => {},
                    }
                    proof {
                        reveal_strlit("\n");
                    }
                    out.append("\n");
                    proof {
                        lemma_rendered_continuations_push(prefix, lines_view(lines@)[i as int]);
                        assert(lines_view(lines@).subrange(1, i + 1) =~= prefix.push(
                            lines_view(lines@)[i as int],
                        ));
                        assert(out@ =~= before + rendered_continuation(
                            lines_view(lines@)[i as int],
                        ));
                        assert(out@ =~= head + rendered_continuations(
                            lines_view(lines@).subrange(1, i + 1),
                        ));
                    }
                    i = i + 1;
                }
                proof {
                    assert(lines_view(lines@).subrange(1, n as int) =~= lines_view(
                        lines@,
                    ).drop_first());
                    assert(out@ =~= rendered(self.name@, self.value@));
                }
                out
            },
        }
    }
}

} // verus!
