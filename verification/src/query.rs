//! Building the query payload: a JSON object with exactly three top-level
//! keys — the fixed operation name, the `vanity`/`slug` variables, and the
//! fixed query-language text — with both inputs passed through verbatim
//! under JSON string escaping.

use vstd::prelude::*;

use crate::text::push_char;

verus! {

/// The hexadecimal digit character for a value below sixteen.
pub open spec fn spec_hex_digit(d: int) -> char {
    if d == 0 {
        '0'
    } else if d == 1 {
        '1'
    } else if d == 2 {
        '2'
    } else if d == 3 {
        '3'
    } else if d == 4 {
        '4'
    } else if d == 5 {
        '5'
    } else if d == 6 {
        '6'
    } else if d == 7 {
        '7'
    } else if d == 8 {
        '8'
    } else if d == 9 {
        '9'
    } else if d == 10 {
        'a'
    } else if d == 11 {
        'b'
    } else if d == 12 {
        'c'
    } else if d == 13 {
        'd'
    } else if d == 14 {
        'e'
    } else {
        'f'
    }
}

/// How one character stands inside a JSON string: quotes and backslashes get
/// a backslash, control characters a `\u00XX` escape, all else itself.
pub open spec fn spec_esc_char(c: char) -> Seq<char> {
    if c == '"' {
        "\\\""@
    } else if c == '\\' {
        "\\\\"@
    } else if (c as u32) < 32 {
        "\\u00"@ + seq![
            spec_hex_digit((c as u32) as int / 16),
            spec_hex_digit((c as u32) as int % 16),
        ]
    } else {
        seq![c]
    }
}

/// The escaped body of a JSON string.
pub open spec fn spec_esc(s: Seq<char>) -> Seq<char>
    decreases s.len(),
{
    if s.len() == 0 {
        Seq::empty()
    } else {
        spec_esc(s.drop_last()) + spec_esc_char(s.last())
    }
}

/// A JSON string carrying `s`: the escaped body between quotes.
pub open spec fn spec_json_str(s: Seq<char>) -> Seq<char> {
    "\""@ + spec_esc(s) + "\""@
}

/// The fixed query-language text of the campaign query.
pub open spec fn spec_query_template() -> Seq<char> {
    "query get_campaign_by_vanity_and_slug($vanity: String, $slug: String) {\n  campaign(vanity: $vanity, slug: $slug) {\n    name\n    description\n    totalAmountRaised { currency value }\n    goal { currency value }\n    milestones { name amount { currency value } }\n  }\n}"@
}

/// The payload text: a JSON object with exactly the keys `operationName`,
/// `variables` (wrapping `vanity` and `slug`) and `query`.
pub open spec fn spec_query_body(vanity: Seq<char>, slug: Seq<char>) -> Seq<char> {
    "{\"operationName\":\"get_campaign_by_vanity_and_slug\",\"variables\":{\"vanity\":"@
        + spec_json_str(vanity) + ",\"slug\":"@ + spec_json_str(slug) + "},\"query\":"@
        + spec_json_str(spec_query_template()) + "}"@
}

/// The hexadecimal digit character of `d`.
fn hex_digit(d: u32) -> (r: char)
    requires
        d < 16,
    ensures
        r == spec_hex_digit(d as int),
{
    if d == 0 {
        '0'
    } else if d == 1 {
        '1'
    } else if d == 2 {
        '2'
    } else if d == 3 {
        '3'
    } else if d == 4 {
        '4'
    } else if d == 5 {
        '5'
    } else if d == 6 {
        '6'
    } else if d == 7 {
        '7'
    } else if d == 8 {
        '8'
    } else if d == 9 {
        '9'
    } else if d == 10 {
        'a'
    } else if d == 11 {
        'b'
    } else if d == 12 {
        'c'
    } else if d == 13 {
        'd'
    } else if d == 14 {
        'e'
    } else {
        'f'
    }
}

/// Appends one character of a JSON string body, escaped as it must stand.
fn push_escaped_char(r: &mut String, c: char)
    ensures
        final(r)@ == old(r)@ + spec_esc_char(c),
{
    if c == '"' {
        r.append("\\\"");
    } else if c == '\\' {
        r.append("\\\\");
    } else {
        let code = c as u32;
        if code < 32 {
            r.append("\\u00");
            push_char(r, hex_digit(code / 16));
            push_char(r, hex_digit(code % 16));
            proof {
                assert(r@ =~= old(r)@ + spec_esc_char(c));
            }
        } else {
            push_char(r, c);
            proof {
                assert(old(r)@.push(c) =~= old(r)@ + seq![c]);
            }
        }
    }
}

/// Appends `s` as a JSON string: quoted, with its body escaped.
fn push_json_string(r: &mut String, s: &str)
    ensures
        final(r)@ == old(r)@ + spec_json_str(s@),
{
    r.append("\"");
    let ghost base = r@;
    proof {
        assert(spec_esc(s@.take(0)) =~= Seq::<char>::empty());
        assert(base + spec_esc(s@.take(0)) =~= base);
    }
    let n = s.unicode_len();
    for i in 0..n
        invariant
            n == s@.len(),
            r@ == base + spec_esc(s@.take(i as int)),
    {
        push_escaped_char(r, s.get_char(i));
        proof {
            assert(s@.take(i as int + 1).drop_last() =~= s@.take(i as int));
            assert(s@.take(i as int + 1).last() == s@[i as int]);
            assert(r@ =~= base + spec_esc(s@.take(i as int + 1)));
        }
    }
    proof {
        assert(s@.take(n as int) =~= s@);
    }
    r.append("\"");
    proof {
        assert(r@ =~= old(r)@ + spec_json_str(s@));
    }
}

/// The fixed query-language text.
pub fn query_template() -> (r: &'static str)
    ensures
        r@ == spec_query_template(),
{
    "query get_campaign_by_vanity_and_slug($vanity: String, $slug: String) {\n  campaign(vanity: $vanity, slug: $slug) {\n    name\n    description\n    totalAmountRaised { currency value }\n    goal { currency value }\n    milestones { name amount { currency value } }\n  }\n}"
}

/// Builds the payload text for one campaign query.  Neither input is
/// validated; both pass through verbatim, escaped as JSON strings.
pub fn build_graph_ql_query(vanity: &str, slug: &str) -> (r: String)
    ensures
        r@ == spec_query_body(vanity@, slug@),
{
    let mut r = String::new();
    r.append("{\"operationName\":\"get_campaign_by_vanity_and_slug\",\"variables\":{\"vanity\":");
    push_json_string(&mut r, vanity);
    r.append(",\"slug\":");
    push_json_string(&mut r, slug);
    r.append("},\"query\":");
    push_json_string(&mut r, query_template());
    r.append("}");
    proof {
        assert(r@ =~= spec_query_body(vanity@, slug@));
    }
    r
}

} // verus!
