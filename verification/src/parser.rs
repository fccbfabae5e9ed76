//! The attribute grammar: recognizing one attribute, with its continuation
//! lines, or one server message from the front of an input buffer.
//!
//! Parsing is a deterministic match over the input: a name token of at
//! least two name characters beginning with a letter and ending with a
//! letter or digit, a literal colon, optional horizontal space, a value
//! token, a line terminator, and then greedily any continuation lines, each
//! introduced by a space, tab or `+`. A fresh, non-continuation line ends
//! the attribute and is left unconsumed for the next parse step.
//!
//! Because matching proves the character classes of every token, the
//! produced names and values satisfy the data-model invariants without
//! revalidation.

use vstd::prelude::*;

use crate::attribute::Attribute;
use crate::attribute::ValueModel;
use crate::attribute::coerced;
use crate::attribute::name_grammar_valid;
use crate::error::ParseError;
use crate::lexis;

verus! {

// ---------------------------------------------------------------------------
// Specification of the attribute grammar
// ---------------------------------------------------------------------------
/// The contents of a sequence of owned strings.
pub open spec fn strings_view(v: Seq<String>) -> Seq<Seq<char>> {
    v.map_values(|x: String| x@)
}

/// The end of the name token: the maximal run of name characters at the
/// start of the input.
pub open spec fn name_end(s: Seq<char>) -> int {
    lexis::name_run_end(s, 0)
}

/// The name token matches: at least two characters, beginning with an
/// ASCII letter and ending with an ASCII letter or digit.
pub open spec fn name_token_ok(s: Seq<char>) -> bool {
    &&& name_end(s) >= 2
    &&& lexis::ascii_alphabetic_char(s[0])
    &&& lexis::ascii_alphanumeric_char(s[name_end(s) - 1])
}

/// The name token is immediately followed by a colon.
pub open spec fn colon_ok(s: Seq<char>) -> bool {
    &&& name_token_ok(s)
    &&& name_end(s) < s.len()
    &&& s[name_end(s)] == ':'
}

/// Where the first value token starts: after the colon and any horizontal
/// space.
pub open spec fn first_value_start(s: Seq<char>) -> int {
    lexis::space_run_end(s, name_end(s) + 1)
}

/// Where the first value token ends: the maximal run of value characters.
pub open spec fn first_value_end(s: Seq<char>) -> int {
    lexis::value_run_end(s, first_value_start(s))
}

/// The first physical line parses: name, colon, value token, terminator.
pub open spec fn head_ok(s: Seq<char>) -> bool {
    &&& colon_ok(s)
    &&& first_value_end(s) < s.len()
    &&& s[first_value_end(s)] == '\n'
}

/// The first value token.
pub open spec fn first_value(s: Seq<char>) -> Seq<char> {
    s.subrange(first_value_start(s), first_value_end(s))
}

/// The position just after the first line's terminator.
pub open spec fn body_start(s: Seq<char>) -> int {
    first_value_end(s) + 1
}

/// The character after the first line is a continuation marker, so the
/// attribute has continuation lines.
pub open spec fn has_continuation_marker(s: Seq<char>) -> bool {
    &&& body_start(s) < s.len()
    &&& lexis::continuation_char(s[body_start(s)])
}

/// Where a continuation line's value starts: after the consumed marker and
/// any horizontal space.
pub open spec fn cont_value_start(s: Seq<char>, i: int) -> int {
    lexis::space_run_end(s, i + 1)
}

/// Where a continuation line's value ends.
pub open spec fn cont_value_end(s: Seq<char>, i: int) -> int {
    lexis::value_run_end(s, cont_value_start(s, i))
}

/// A continuation line parses at position `i`: a marker, optional space, a
/// value token and a terminator.
pub open spec fn cont_line_ok(s: Seq<char>, i: int) -> bool {
    &&& 0 <= i < s.len()
    &&& lexis::continuation_char(s[i])
    &&& cont_value_end(s, i) < s.len()
    &&& s[cont_value_end(s, i)] == '\n'
}

/// The position just after a continuation line's terminator.
pub open spec fn cont_next(s: Seq<char>, i: int) -> int {
    cont_value_end(s, i) + 1
}

/// The value tokens of the greedy run of continuation lines from `i`:
/// repetition stops at the first line that does not parse as a
/// continuation line.
pub open spec fn cont_values(s: Seq<char>, i: int) -> Seq<Seq<char>>
    decreases s.len() - i,
        when 0 <= i <= s.len()
        via cont_values_decreases
{
    if cont_line_ok(s, i) {
        seq![s.subrange(cont_value_start(s, i), cont_value_end(s, i))] + cont_values(
            s,
            cont_next(s, i),
        )
    } else {
        Seq::empty()
    }
}

#[via_fn]
proof fn cont_values_decreases(s: Seq<char>, i: int) {
    if cont_line_ok(s, i) {
        lexis::lemma_space_run_end(s, i + 1);
        lexis::lemma_value_run_end(s, cont_value_start(s, i));
    }
}

/// The position just after the greedy run of continuation lines from `i`.
pub open spec fn cont_end(s: Seq<char>, i: int) -> int
    decreases s.len() - i,
        when 0 <= i <= s.len()
        via cont_end_decreases
{
    if cont_line_ok(s, i) {
        cont_end(s, cont_next(s, i))
    } else {
        i
    }
}

#[via_fn]
proof fn cont_end_decreases(s: Seq<char>, i: int) {
    if cont_line_ok(s, i) {
        lexis::lemma_space_run_end(s, i + 1);
        lexis::lemma_value_run_end(s, cont_value_start(s, i));
    }
}

/// One whole attribute parses at the front of the input. When a
/// continuation marker follows the first line, the first continuation line
/// must parse; later lines merely stop the greedy repetition.
pub open spec fn attribute_ok(s: Seq<char>) -> bool {
    &&& head_ok(s)
    &&& (has_continuation_marker(s) ==> cont_line_ok(s, body_start(s)))
}

/// The position just after the parsed attribute: after the last
/// continuation line, or after the first line when there is none.
pub open spec fn attribute_end(s: Seq<char>) -> int {
    if has_continuation_marker(s) {
        cont_end(s, body_start(s))
    } else {
        body_start(s)
    }
}

/// All value tokens of the attribute in order: the first line's token,
/// then one per continuation line.
pub open spec fn attribute_value_lines(s: Seq<char>) -> Seq<Seq<char>> {
    seq![first_value(s)] + cont_values(s, body_start(s))
}

/// The pattern reported when an attribute fails to parse: the name token,
/// then the literal colon, then a line terminator.
pub open spec fn attribute_failure(s: Seq<char>) -> ParseError {
    if !name_token_ok(s) {
        ParseError::ExpectedName
    } else if !(name_end(s) < s.len() && s[name_end(s)] == ':') {
        ParseError::ExpectedColon
    } else {
        ParseError::ExpectedNewline
    }
}

// ---------------------------------------------------------------------------
// Specification of the server-message grammar
// ---------------------------------------------------------------------------
/// Where a server message's text starts: after the percent sign and any
/// horizontal space.
pub open spec fn comment_start(s: Seq<char>) -> int {
    lexis::space_run_end(s, 1)
}

/// Where a server message's text ends: the maximal run of non-control
/// characters. Non-ASCII characters are permitted here.
pub open spec fn comment_end(s: Seq<char>) -> int {
    lexis::comment_run_end(s, comment_start(s))
}

/// A server message parses at the front of the input: a percent sign,
/// optional space, non-control text and a terminator.
pub open spec fn server_message_ok(s: Seq<char>) -> bool {
    &&& s.len() > 0
    &&& s[0] == '%'
    &&& comment_end(s) < s.len()
    &&& s[comment_end(s)] == '\n'
}

/// The pattern reported when a server message fails to parse.
pub open spec fn server_message_failure(s: Seq<char>) -> ParseError {
    if !(s.len() > 0 && s[0] == '%') {
        ParseError::ExpectedCommentMark
    } else {
        ParseError::ExpectedNewline
    }
}

// ---------------------------------------------------------------------------
// Executable parsers
// ---------------------------------------------------------------------------
/// Match the name token at the front of the input: two or more characters
/// drawn from letters, digits, `-` and `_`, where the first is a letter and
/// the last is a letter or digit. Returns the token and the remaining
/// input.
pub fn attribute_name(input: &str) -> (r: Result<(&str, &str), ParseError>)
    ensures
        r is Ok <==> name_token_ok(input@),
        r matches Ok((name, rest)) ==> name@ == input@.subrange(0, name_end(input@)) && rest@
            == input@.subrange(name_end(input@), input@.len() as int),
        r matches Err(e) ==> e == ParseError::ExpectedName,
{
    let len: usize = input.unicode_len();
    let ne: usize = lexis::scan_name_run(input, 0);
    if ne < 2 {
        return Err(ParseError::ExpectedName);
    }
    if !lexis::is_ascii_alphabetic_char(input.get_char(0)) {
        return Err(ParseError::ExpectedName);
    }
    if !lexis::is_ascii_alphanumeric_char(input.get_char(ne - 1)) {
        return Err(ParseError::ExpectedName);
    }
    Ok((input.substring_char(0, ne), input.substring_char(ne, len)))
}

/// Parse one attribute at the front of the input: a name, a colon,
/// optional space, a first value line, and then greedily any continuation
/// lines. A one-line attribute yields a single-line value; continuation
/// lines are combined, in order, into a multi-line value. Returns the
/// attribute and the remaining unconsumed input.
pub fn attribute(input: &str) -> (r: Result<(Attribute, &str), ParseError>)
    ensures
        r is Ok <==> attribute_ok(input@),
        r matches Ok((a, rest)) ==> ({
            &&& a.name@ == input@.subrange(0, name_end(input@))
            &&& a.wf()
            &&& rest@ == input@.subrange(attribute_end(input@), input@.len() as int)
            &&& a.value@ == (if has_continuation_marker(input@) {
                ValueModel::Multi(
                    attribute_value_lines(input@).map_values(|l: Seq<char>| coerced(l)),
                )
            } else {
                ValueModel::Single(coerced(first_value(input@)))
            })
        }),
        r matches Err(e) ==> e == attribute_failure(input@),
{
    let ghost s = input@;
    let len: usize = input.unicode_len();
    let ne: usize = lexis::scan_name_run(input, 0);
    if ne < 2 || !lexis::is_ascii_alphabetic_char(input.get_char(0))
        || !lexis::is_ascii_alphanumeric_char(input.get_char(ne - 1)) {
        return Err(ParseError::ExpectedName);
    }
    if !(ne < len && input.get_char(ne) == ':') {
        return Err(ParseError::ExpectedColon);
    }
    let vs: usize = lexis::scan_space_run(input, ne + 1);
    let ve: usize = lexis::scan_value_run(input, vs);
    if !(ve < len && input.get_char(ve) == '\n') {
        return Err(ParseError::ExpectedNewline);
    }
    let name_str: String = input.substring_char(0, ne).to_owned();
    proof {
        lexis::lemma_name_run_end(s, 0);
        assert(name_grammar_valid(name_str@)) by {
            assert forall|i: int| 0 <= i < name_str@.len() implies lexis::name_char(
                #[trigger] name_str@[i],
            ) by {
                assert(name_str@[i] == s[i]);
            }
            assert(name_str@[0] == s[0]);
            assert(name_str@[name_str@.len() - 1] == s[ne - 1]);
        }
    }
    let first: String = input.substring_char(vs, ve).to_owned();
    proof {
        lexis::lemma_value_run_end(s, vs as int);
        assert(lexis::value_seq(first@)) by {
            assert forall|i: int| 0 <= i < first@.len() implies lexis::value_char(
                #[trigger] first@[i],
            ) by {
                assert(first@[i] == s[vs + i]);
            }
        }
        assert(first@ == first_value(s));
    }
    let body: usize = ve + 1;
    if body < len && lexis::is_continuation_char(input.get_char(body)) {
        let ghost bstart = body as int;
        let mut vals: Vec<String> = Vec::new();
        vals.push(first);
        let mut pos: usize = body;
        let mut stop: bool = false;
        proof {
            assert(strings_view(vals@).skip(1) =~= Seq::<Seq<char>>::empty());
            assert(strings_view(vals@).skip(1) + cont_values(s, pos as int) =~= cont_values(
                s,
                bstart,
            ));
        }
        while !stop
            invariant
                input@ == s,
                len == s.len(),
                bstart == body_start(s),
                head_ok(s),
                has_continuation_marker(s),
                bstart <= pos <= len,
                vals@.len() >= 1,
                vals@[0]@ == first_value(s),
                forall|k: int| 0 <= k < vals@.len() ==> lexis::value_seq(#[trigger] vals@[k]@),
                vals@.len() == 1 ==> pos == bstart,
                vals@.len() >= 2 ==> cont_line_ok(s, bstart),
                strings_view(vals@).skip(1) + cont_values(s, pos as int) == cont_values(s, bstart),
                cont_end(s, bstart) == cont_end(s, pos as int),
                stop ==> !cont_line_ok(s, pos as int),
                stop ==> vals@.len() >= 2,
            decreases len - pos, (if stop {
                0int
            } else {
                1int
            }),
        {
            if pos < len && lexis::is_continuation_char(input.get_char(pos)) {
                let cs: usize = pos + 1;
                let ss: usize = lexis::scan_space_run(input, cs);
                let ce: usize = lexis::scan_value_run(input, ss);
                if ce < len && input.get_char(ce) == '\n' {
                    let line: String = input.substring_char(ss, ce).to_owned();
                    proof {
                        lexis::lemma_value_run_end(s, ss as int);
                        assert(lexis::value_seq(line@)) by {
                            assert forall|i: int| 0 <= i < line@.len() implies lexis::value_char(
                                #[trigger] line@[i],
                            ) by {
                                assert(line@[i] == s[ss + i]);
                            }
                        }
                        assert(cont_line_ok(s, pos as int));
                        assert(cont_values(s, pos as int) == seq![
                            s.subrange(ss as int, ce as int),
                        ] + cont_values(s, ce + 1));
                        assert(cont_end(s, pos as int) == cont_end(s, ce + 1));
                    }
                    let ghost old_vals = vals@;
                    vals.push(line);
                    proof {
                        assert(strings_view(vals@).skip(1) =~= strings_view(old_vals).skip(
                            1,
                        ).push(s.subrange(ss as int, ce as int)));
                        assert(strings_view(vals@).skip(1) + cont_values(s, ce + 1)
                            =~= strings_view(old_vals).skip(1) + cont_values(s, pos as int));
                    }
                    pos = ce + 1;
                } else {
                    proof {
                        assert(!cont_line_ok(s, pos as int));
                    }
                    if vals.len() == 1 {
                        return Err(ParseError::ExpectedNewline);
                    }
                    stop = true;
                }
            } else {
                proof {
                    assert(!cont_line_ok(s, pos as int));
                }
                stop = true;
            }
        }
        proof {
            assert(cont_values(s, pos as int) =~= Seq::<Seq<char>>::empty());
            assert(strings_view(vals@).skip(1) + cont_values(s, pos as int) =~= strings_view(
                vals@,
            ).skip(1));
            assert(strings_view(vals@).skip(1) == cont_values(s, bstart));
            assert(cont_end(s, pos as int) == pos as int);
            assert(pos as int == attribute_end(s));
        }
        let rest: &str = input.substring_char(pos, len);
        let ghost final_vals = vals@;
        let a = Attribute::unchecked_multi(name_str, vals);
        proof {
            let target = attribute_value_lines(s).map_values(|l: Seq<char>| coerced(l));
            let built = Seq::new(final_vals.len(), |i: int| coerced(final_vals[i]@));
            assert(built =~= target) by {
                assert(attribute_value_lines(s).len() == 1 + cont_values(s, bstart).len());
                assert(cont_values(s, bstart).len() == final_vals.len() - 1);
                assert forall|i: int| 0 <= i < built.len() implies built[i] == target[i] by {
                    if i == 0 {
                        assert(attribute_value_lines(s)[0] == first_value(s));
                        assert(final_vals[0]@ == first_value(s));
                    } else {
                        assert(attribute_value_lines(s)[i] == cont_values(s, bstart)[i - 1]);
                        assert(cont_values(s, bstart)[i - 1] == strings_view(final_vals).skip(1)[i
                            - 1]);
                        assert(strings_view(final_vals)[i] == final_vals[i]@);
                    }
                }
            }
        }
        Ok((a, rest))
    } else {
        let rest: &str = input.substring_char(body, len);
        let a = Attribute::unchecked_single(name_str, first);
        Ok((a, rest))
    }
}

/// Recognize a server message: a line beginning with `%`, optional
/// horizontal space, then any characters that are not control characters —
/// non-ASCII is permitted, in contrast to attribute values — up to a line
/// terminator. Returns the message text and the remaining input.
pub fn server_message(input: &str) -> (r: Result<(&str, &str), ParseError>)
    ensures
        r is Ok <==> server_message_ok(input@),
        r matches Ok((msg, rest)) ==> msg@ == input@.subrange(
            comment_start(input@),
            comment_end(input@),
        ) && rest@ == input@.subrange(comment_end(input@) + 1, input@.len() as int),
        r matches Err(e) ==> e == server_message_failure(input@),
{
    let len: usize = input.unicode_len();
    if len == 0 || input.get_char(0) != '%' {
        return Err(ParseError::ExpectedCommentMark);
    }
    let ms: usize = lexis::scan_space_run(input, 1);
    let me: usize = lexis::scan_comment_run(input, ms);
    if !(me < len && input.get_char(me) == '\n') {
        return Err(ParseError::ExpectedNewline);
    }
    Ok((input.substring_char(ms, me), input.substring_char(me + 1, len)))
}

} // verus!
