//! The serialized form of an ordered list of option strings, as it is kept in
//! the one text column of a stored row: a bracketed, comma-separated list of
//! double-quoted strings, with backslash escapes for the quote, the backslash
//! itself, and the newline, carriage-return and tab characters.
//!
//! Decoding inverts encoding exactly: see [`lemma_options_round_trip`].

use vstd::prelude::*;
use vstd::string::StringExecFns;
use vstd::string::StrSliceExecFns;

verus! {

/// Decoding failed: the text is not a well-formed serialized option list.
#[derive(Clone, Copy, Debug, PartialEq, Eq, Structural)]
pub struct DecodeError {}

/// Whether `e` may follow a backslash in the serialized form.
pub open spec fn is_escape_code(e: char) -> bool {
    e == '"' || e == '\\' || e == 'n' || e == 'r' || e == 't'
}

/// The character an escape code stands for.
pub open spec fn unescape(e: char) -> char {
    if e == 'n' {
        '\n'
    } else if e == 'r' {
        '\r'
    } else if e == 't' {
        '\t'
    } else {
        e
    }
}

/// The serialized form of one character of an option string.
pub open spec fn esc_char(c: char) -> Seq<char> {
    if c == '"' {
        seq!['\\', '"']
    } else if c == '\\' {
        seq!['\\', '\\']
    } else if c == '\n' {
        seq!['\\', 'n']
    } else if c == '\r' {
        seq!['\\', 'r']
    } else if c == '\t' {
        seq!['\\', 't']
    } else {
        seq![c]
    }
}

/// The serialized form of the characters of one option string, quotes not
/// included.
pub open spec fn esc_string(s: Seq<char>) -> Seq<char>
    decreases s.len(),
{
    if s.len() == 0 {
        Seq::empty()
    } else {
        esc_char(s[0]) + esc_string(s.skip(1))
    }
}

/// One option string in its quotes.
pub open spec fn spec_quoted(s: Seq<char>) -> Seq<char> {
    seq!['"'] + esc_string(s) + seq!['"']
}

/// The quoted options joined by commas, for a nonempty list.
pub open spec fn spec_joined_items(opts: Seq<Seq<char>>) -> Seq<char>
    decreases opts.len(),
{
    if opts.len() <= 1 {
        spec_quoted(opts[0])
    } else {
        spec_quoted(opts[0]) + seq![','] + spec_joined_items(opts.skip(1))
    }
}

/// The serialized form of an ordered option list.
pub open spec fn spec_encode_options(opts: Seq<Seq<char>>) -> Seq<char> {
    if opts.len() == 0 {
        seq!['[', ']']
    } else {
        seq!['['] + spec_joined_items(opts) + seq![']']
    }
}

/// Parses the body of a quoted string up to its closing quote; the result is
/// the content together with whatever follows the quote.
pub open spec fn parse_str_body(s: Seq<char>) -> Option<(Seq<char>, Seq<char>)>
    decreases s.len(),
{
    if s.len() == 0 {
        None
    } else if s[0] == '"' {
        Some((Seq::empty(), s.skip(1)))
    } else if s[0] == '\\' {
        if s.len() < 2 || !is_escape_code(s[1]) {
            None
        } else {
            match parse_str_body(s.skip(2)) {
                Some(cr) => Some((seq![unescape(s[1])] + cr.0, cr.1)),
                None => None,
            }
        }
    } else {
        match parse_str_body(s.skip(1)) {
            Some(cr) => Some((seq![s[0]] + cr.0, cr.1)),
            None => None,
        }
    }
}

/// A successful string-body parse consumes at least the closing quote.
pub proof fn lemma_parse_str_body_consumes(s: Seq<char>)
    ensures
        parse_str_body(s) matches Some(cr) ==> cr.1.len() < s.len(),
    decreases s.len(),
{
    if s.len() == 0 {
    } else if s[0] == '"' {
    } else if s[0] == '\\' {
        if s.len() >= 2 && is_escape_code(s[1]) {
            lemma_parse_str_body_consumes(s.skip(2));
        }
    } else {
        lemma_parse_str_body_consumes(s.skip(1));
    }
}

/// Parses the quoted strings after the opening bracket, each followed by a
/// comma or, for the last, by the closing bracket that must end the input.
pub open spec fn parse_elems(s: Seq<char>) -> Option<Seq<Seq<char>>>
    decreases s.len(),
    via parse_elems_decreases
{
    if s.len() == 0 || s[0] != '"' {
        None
    } else {
        match parse_str_body(s.skip(1)) {
            None => None,
            Some(cr) => {
                let (content, rest) = cr;
                if rest.len() == 0 {
                    None
                } else if rest[0] == ',' {
                    match parse_elems(rest.skip(1)) {
                        None => None,
                        Some(tail) => Some(seq![content] + tail),
                    }
                } else if rest[0] == ']' && rest.len() == 1 {
                    Some(seq![content])
                } else {
                    None
                }
            },
        }
    }
}

#[via_fn]
proof fn parse_elems_decreases(s: Seq<char>) {
    if s.len() > 0 && s[0] == '"' {
        lemma_parse_str_body_consumes(s.skip(1));
    }
}

/// The option list a serialized text stands for, if it is well formed.
pub open spec fn spec_decode_options(s: Seq<char>) -> Option<Seq<Seq<char>>> {
    if s.len() == 2 && s[0] == '[' && s[1] == ']' {
        Some(Seq::empty())
    } else if s.len() >= 1 && s[0] == '[' {
        parse_elems(s.skip(1))
    } else {
        None
    }
}

/// Parsing a string body that was produced by escaping `content`, with the
/// closing quote and any `rest` behind it, gives back `content` and `rest`.
pub proof fn lemma_parse_str_body_of_encoding(content: Seq<char>, rest: Seq<char>)
    ensures
        parse_str_body(esc_string(content) + seq!['"'] + rest) == Some((content, rest)),
    decreases content.len(),
{
    let s = esc_string(content) + seq!['"'] + rest;
    if content.len() == 0 {
        assert(s =~= seq!['"'] + rest);
        assert(s[0] == '"');
        assert(s.skip(1) =~= rest);
    } else {
        let c = content[0];
        let t = esc_string(content.skip(1)) + seq!['"'] + rest;
        lemma_parse_str_body_of_encoding(content.skip(1), rest);
        assert(esc_string(content) == esc_char(c) + esc_string(content.skip(1)));
        if c == '"' || c == '\\' || c == '\n' || c == '\r' || c == '\t' {
            assert(s =~= esc_char(c) + t);
            assert(s[0] == '\\');
            assert(s[1] == esc_char(c)[1]);
            assert(is_escape_code(s[1]));
            assert(unescape(s[1]) == c);
            assert(s.skip(2) =~= t);
            assert(seq![c] + content.skip(1) =~= content);
        } else {
            assert(esc_char(c) == seq![c]);
            assert(s =~= seq![c] + t);
            assert(s[0] == c);
            assert(s[0] != '"' && s[0] != '\\');
            assert(s.skip(1) =~= t);
            assert(seq![c] + content.skip(1) =~= content);
        }
    }
}

/// Parsing the joined quoted items with the closing bracket behind them gives
/// back exactly the option list.
pub proof fn lemma_parse_elems_of_encoding(opts: Seq<Seq<char>>)
    requires
        opts.len() >= 1,
    ensures
        parse_elems(spec_joined_items(opts) + seq![']']) == Some(opts),
    decreases opts.len(),
{
    let s = spec_joined_items(opts) + seq![']'];
    if opts.len() == 1 {
        assert(s =~= seq!['"'] + (esc_string(opts[0]) + seq!['"'] + seq![']']));
        assert(s[0] == '"');
        assert(s.skip(1) =~= esc_string(opts[0]) + seq!['"'] + seq![']']);
        lemma_parse_str_body_of_encoding(opts[0], seq![']']);
        let rest = seq![']'];
        assert(parse_str_body(s.skip(1)) == Some((opts[0], rest)));
        assert(rest[0] == ']' && rest.len() == 1);
        assert(seq![opts[0]] =~= opts);
    } else {
        let tail_enc = spec_joined_items(opts.skip(1)) + seq![']'];
        let rest = seq![','] + tail_enc;
        assert(s =~= seq!['"'] + (esc_string(opts[0]) + seq!['"'] + rest));
        assert(s[0] == '"');
        assert(s.skip(1) =~= esc_string(opts[0]) + seq!['"'] + rest);
        lemma_parse_str_body_of_encoding(opts[0], rest);
        assert(parse_str_body(s.skip(1)) == Some((opts[0], rest)));
        assert(rest[0] == ',');
        assert(rest.skip(1) =~= tail_enc);
        lemma_parse_elems_of_encoding(opts.skip(1));
        assert(parse_elems(rest.skip(1)) == Some(opts.skip(1)));
        assert(seq![opts[0]] + opts.skip(1) =~= opts);
    }
}

/// Escaping a string one character longer appends that character's escape.
proof fn lemma_esc_string_snoc(t: Seq<char>, c: char)
    ensures
        esc_string(t.push(c)) == esc_string(t) + esc_char(c),
    decreases t.len(),
{
    if t.len() == 0 {
        assert(t.push(c)[0] == c);
        assert(t.push(c).skip(1) =~= Seq::<char>::empty());
        assert(esc_string(t.push(c)) == esc_char(c) + esc_string(t.push(c).skip(1)));
        assert(esc_string(t.push(c).skip(1)) == Seq::<char>::empty());
        assert(esc_string(t) == Seq::<char>::empty());
        assert(esc_string(t.push(c)) =~= esc_string(t) + esc_char(c));
    } else {
        lemma_esc_string_snoc(t.skip(1), c);
        assert(t.push(c)[0] == t[0]);
        assert(t.push(c).skip(1) =~= t.skip(1).push(c));
        assert(esc_string(t.push(c)) == esc_char(t[0]) + esc_string(t.skip(1).push(c)));
        assert(esc_string(t.skip(1).push(c)) == esc_string(t.skip(1)) + esc_char(c));
        assert(esc_string(t.push(c)) =~= esc_string(t) + esc_char(c));
    }
}

/// The one-character string an escape code stands for.
fn unescape_str(e: char) -> (r: &'static str)
    requires
        is_escape_code(e),
    ensures
        r@ =~= seq![unescape(e)],
{
    proof {
        reveal_strlit("\"");
        reveal_strlit("\\");
        reveal_strlit("\n");
        reveal_strlit("\r");
        reveal_strlit("\t");
    }
    if e == 'n' {
        "\n"
    } else if e == 'r' {
        "\r"
    } else if e == 't' {
        "\t"
    } else if e == '\\' {
        "\\"
    } else {
        "\""
    }
}

/// Serializes one option string in its quotes.
fn encode_quoted(s: &String) -> (r: String)
    ensures
        r@ == spec_quoted(s@),
{
    proof {
        reveal_strlit("\"");
        reveal_strlit("\\\"");
        reveal_strlit("\\\\");
        reveal_strlit("\\n");
        reveal_strlit("\\r");
        reveal_strlit("\\t");
    }
    let mut out = "\"".to_owned();
    let n = s.as_str().unicode_len();
    let mut i: usize = 0;
    while i < n
        invariant
            i <= n,
            n == s@.len(),
            out@ == seq!['"'] + esc_string(s@.take(i as int)),
        decreases n - i,
    {
        let c = s.as_str().get_char(i);
        proof {
            reveal_strlit("\\\"");
            reveal_strlit("\\\\");
            reveal_strlit("\\n");
            reveal_strlit("\\r");
            reveal_strlit("\\t");
            lemma_esc_string_snoc(s@.take(i as int), s@[i as int]);
            assert(s@.take(i as int).push(s@[i as int]) =~= s@.take(i as int + 1));
        }
        if c == '"' {
            out.append("\\\"");
        } else if c == '\\' {
            out.append("\\\\");
        } else if c == '\n' {
            out.append("\\n");
        } else if c == '\r' {
            out.append("\\r");
        } else if c == '\t' {
            out.append("\\t");
        } else {
            let piece = s.as_str().substring_char(i, i + 1);
            assert(piece@ =~= seq![c]);
            out.append(piece);
        }
        assert(out@ =~= seq!['"'] + esc_string(s@.take(i as int + 1)));
        i = i + 1;
    }
    assert(s@.take(n as int) =~= s@);
    out.append("\"");
    assert(out@ =~= spec_quoted(s@));
    out
}

/// Serializes the options from index `i` on, joined by commas.
fn encode_items_from(opts: &Vec<String>, i: usize) -> (r: String)
    requires
        i < opts@.len(),
    ensures
        r@ == spec_joined_items(opts.deep_view().skip(i as int)),
    decreases opts@.len() - i,
{
    proof {
        reveal_strlit(",");
        assert(opts.deep_view().skip(i as int)[0] == opts@[i as int]@);
    }
    let n = opts.len();
    let item = encode_quoted(&opts[i]);
    if i + 1 == n {
        assert(item@ =~= spec_joined_items(opts.deep_view().skip(i as int)));
        item
    } else {
        proof {
            assert(opts.deep_view().skip(i as int).skip(1) =~= opts.deep_view().skip(
                i as int + 1,
            ));
        }
        let rest = encode_items_from(opts, i + 1);
        let r = item.concat(",").concat(rest.as_str());
        assert(r@ =~= spec_joined_items(opts.deep_view().skip(i as int)));
        r
    }
}

/// Serializes an ordered option list.
pub fn encode_options(opts: &Vec<String>) -> (r: String)
    ensures
        r@ == spec_encode_options(opts.deep_view()),
{
    proof {
        reveal_strlit("[");
        reveal_strlit("]");
        reveal_strlit("[]");
    }
    if opts.len() == 0 {
        let r = "[]".to_owned();
        assert(r@ =~= seq!['[', ']']);
        r
    } else {
        let items = encode_items_from(opts, 0);
        proof {
            assert(opts.deep_view().skip(0) =~= opts.deep_view());
        }
        let r = "[".to_owned().concat(items.as_str()).concat("]");
        assert(r@ =~= spec_encode_options(opts.deep_view()));
        r
    }
}

/// Parses a quoted string's body from character `i` on; on success the
/// content and the index just past the closing quote come back.
fn parse_str_body_exec(s: &str, i: usize) -> (r: Option<(String, usize)>)
    requires
        i <= s@.len(),
    ensures
        match r {
            Some(p) => i <= p.1 <= s@.len() && parse_str_body(s@.skip(i as int)) == Some(
                (p.0@, s@.skip(p.1 as int)),
            ),
            None => parse_str_body(s@.skip(i as int)) is None,
        },
    decreases s@.len() - i,
{
    let ln = s.unicode_len();
    if i == ln {
        return None;
    }
    let c = s.get_char(i);
    assert(s@.skip(i as int)[0] == s@[i as int]);
    if c == '"' {
        proof {
            assert(s@.skip(i as int).skip(1) =~= s@.skip(i as int + 1));
        }
        Some((String::new(), i + 1))
    } else if c == '\\' {
        if i + 1 == ln {
            return None;
        }
        let e = s.get_char(i + 1);
        assert(s@.skip(i as int)[1] == s@[i as int + 1]);
        if e == '"' || e == '\\' || e == 'n' || e == 'r' || e == 't' {
            proof {
                assert(s@.skip(i as int).skip(2) =~= s@.skip(i as int + 2));
            }
            match parse_str_body_exec(s, i + 2) {
                Some(p) => {
                    let (rest, j) = p;
                    let content = unescape_str(e).to_owned().concat(rest.as_str());
                    assert(content@ =~= seq![unescape(s@[i as int + 1])] + rest@);
                    Some((content, j))
                },
                None => None,
            }
        } else {
            None
        }
    } else {
        proof {
            assert(s@.skip(i as int).skip(1) =~= s@.skip(i as int + 1));
        }
        match parse_str_body_exec(s, i + 1) {
            Some(p) => {
                let (rest, j) = p;
                let piece = s.substring_char(i, i + 1).to_owned();
                assert(piece@ =~= seq![s@[i as int]]);
                let content = piece.concat(rest.as_str());
                Some((content, j))
            },
            None => None,
        }
    }
}

/// Parses the quoted strings from character `i` on, up to the closing
/// bracket that must end the input.
fn parse_elems_exec(s: &str, i: usize) -> (r: Option<Vec<String>>)
    requires
        i <= s@.len(),
    ensures
        match r {
            Some(v) => parse_elems(s@.skip(i as int)) == Some(v.deep_view()),
            None => parse_elems(s@.skip(i as int)) is None,
        },
    decreases s@.len() - i,
{
    let ln = s.unicode_len();
    if i == ln {
        return None;
    }
    let c = s.get_char(i);
    assert(s@.skip(i as int)[0] == s@[i as int]);
    if c != '"' {
        return None;
    }
    proof {
        assert(s@.skip(i as int).skip(1) =~= s@.skip(i as int + 1));
    }
    match parse_str_body_exec(s, i + 1) {
        None => None,
        Some(p) => {
            let (content, j) = p;
            if j == ln {
                None
            } else {
                let d = s.get_char(j);
                assert(s@.skip(j as int)[0] == s@[j as int]);
                if d == ',' {
                    proof {
                        assert(s@.skip(j as int).skip(1) =~= s@.skip(j as int + 1));
                    }
                    match parse_elems_exec(s, j + 1) {
                        None => None,
                        Some(tail) => {
                            let ghost tail_dv = tail.deep_view();
                            let mut v = tail;
                            v.insert(0, content);
                            assert(v.deep_view() =~= seq![content@] + tail_dv);
                            Some(v)
                        },
                    }
                } else if d == ']' {
                    if j + 1 == ln {
                        let mut v: Vec<String> = Vec::new();
                        v.push(content);
                        assert(v.deep_view() =~= seq![content@]);
                        Some(v)
                    } else {
                        None
                    }
                } else {
                    None
                }
            }
        },
    }
}

/// Decodes a serialized option list, or reports the text malformed.
pub fn decode_options(s: &str) -> (r: Result<Vec<String>, DecodeError>)
    ensures
        match r {
            Ok(v) => spec_decode_options(s@) == Some(v.deep_view()),
            Err(e) => spec_decode_options(s@) is None,
        },
{
    let ln = s.unicode_len();
    if ln == 0 {
        return Err(DecodeError {  });
    }
    if s.get_char(0) != '[' {
        return Err(DecodeError {  });
    }
    if ln == 2 && s.get_char(1) == ']' {
        let v: Vec<String> = Vec::new();
        assert(v.deep_view() =~= Seq::<Seq<char>>::empty());
        return Ok(v);
    }
    match parse_elems_exec(s, 1) {
        Some(v) => Ok(v),
        None => Err(DecodeError {  }),
    }
}

/// Law: decoding a serialized option list gives back exactly the list that
/// was encoded, whatever its strings hold and in the same order.
pub proof fn lemma_options_round_trip(opts: Seq<Seq<char>>)
    ensures
        spec_decode_options(spec_encode_options(opts)) == Some(opts),
{
    let s = spec_encode_options(opts);
    if opts.len() == 0 {
        assert(s == seq!['[', ']']);
        assert(spec_decode_options(s) == Some(Seq::<Seq<char>>::empty()));
        assert(Seq::<Seq<char>>::empty() =~= opts);
    } else {
        let joined = spec_joined_items(opts);
        assert(joined.len() >= 2) by {
            if opts.len() == 1 {
                assert(joined == spec_quoted(opts[0]));
            } else {
                assert(joined == spec_quoted(opts[0]) + seq![','] + spec_joined_items(
                    opts.skip(1),
                ));
            }
        }
        assert(s == seq!['['] + joined + seq![']']);
        assert(s.len() >= 4);
        assert(s[0] == '[');
        assert(s.skip(1) =~= joined + seq![']']);
        lemma_parse_elems_of_encoding(opts);
    }
}

} // verus!
