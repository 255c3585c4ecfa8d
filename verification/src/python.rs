//! Stockpile filtering as the Python bindings offer it: the filters of the
//! command line without the faction, the type matched on its JSON form.

use vstd::prelude::*;
use vstd::string::StringExecFns;

use crate::filter::passes;
use crate::models::{opt_text, Stockpile, StockpileView};
use crate::text::{
    ascii_lowercase, eq_ignore_ascii_case, lemma_trim_enclosed, str_eq, trim_char,
    trim_matches_char,
};

verus! {

/// Whether JSON escapes a character in a string: a quote, a backslash or a
/// control character below U+0020.
pub open spec fn json_escaped(c: char) -> bool {
    c == '"' || c == '\\' || (c as u32) < 0x20
}

/// Whether no character of `s` is escaped in JSON.
pub open spec fn json_plain(s: Seq<char>) -> bool {
    forall|i: int| 0 <= i < s.len() ==> !json_escaped(#[trigger] s[i])
}

/// A lower-case hexadecimal digit.
pub open spec fn hex_digit(n: u32) -> char {
    if n < 10 {
        (('0' as u32) + n) as char
    } else {
        (('a' as u32) + n - 10) as char
    }
}

/// How JSON writes one character of a string: a quote and a backslash behind
/// a backslash; backspace, form feed, line feed, carriage return and tab as
/// `\b`, `\f`, `\n`, `\r`, `\t`; other characters below U+0020 as `\u00`
/// and two lower-case hexadecimal digits; every other character as itself.
pub open spec fn json_char(c: char) -> Seq<char> {
    if c == '"' || c == '\\' {
        seq!['\\', c]
    } else if c == '\u{8}' {
        seq!['\\', 'b']
    } else if c == '\u{c}' {
        seq!['\\', 'f']
    } else if c == '\n' {
        seq!['\\', 'n']
    } else if c == '\r' {
        seq!['\\', 'r']
    } else if c == '\t' {
        seq!['\\', 't']
    } else if (c as u32) < 0x20 {
        seq!['\\', 'u', '0', '0', hex_digit((c as u32) / 16), hex_digit((c as u32) % 16)]
    } else {
        seq![c]
    }
}

/// The characters of a string as JSON writes them between its quotes.
pub open spec fn json_chars(s: Seq<char>) -> Seq<char>
    decreases s.len(),
{
    if s.len() == 0 {
        Seq::empty()
    } else {
        json_chars(s.drop_last()) + json_char(s.last())
    }
}

/// The JSON text of a string: a quote, its characters as JSON writes them, a quote.
pub open spec fn json_string(s: Seq<char>) -> Seq<char> {
    seq!['"'] + json_chars(s) + seq!['"']
}

/// A string with no escaped character is written as it is.
proof fn lemma_json_chars_plain(s: Seq<char>)
    requires
        json_plain(s),
    ensures
        json_chars(s) == s,
    decreases s.len(),
{
    if s.len() > 0 {
        assert(json_plain(s.drop_last())) by {
            assert forall|i: int| 0 <= i < s.drop_last().len() implies !json_escaped(
                #[trigger] s.drop_last()[i],
            ) by {
                assert(s.drop_last()[i] == s[i]);
            }
        }
        lemma_json_chars_plain(s.drop_last());
        assert(!json_escaped(s[s.len() - 1]));
        assert(s.drop_last() + seq![s.last()] =~= s);
    }
}

/// `serde_json::to_string` on a string, its error dropped. Claims, from
/// serde_json's string formatter (`format_escaped_str`, its escape table and
/// `write_char_escape`), that the text is [`json_string`] of the string; the
/// text is written to a `Vec`, which does not fail, so the call succeeds.
#[verifier::external_body]
fn to_json_string(s: &str) -> (r: Option<String>)
    ensures
        opt_text(r) == Some(json_string(s@)),
{
    serde_json::to_string(s).ok()
}

/// The view of an optional string slice.
pub open spec fn opt_str(o: Option<&str>) -> Option<Seq<char>> {
    match o {
        Some(s) => Some(s@),
        None => None,
    }
}

/// The type of a stockpile as the Python filter compares it: its JSON text
/// trimmed of quotes.
pub open spec fn json_type_text(ty: Seq<char>) -> Seq<char> {
    trim_char(json_string(ty), '"')
}

/// Whether a stockpile passes the Python filters: not a reserve with
/// `public`, a reserve with `reserves`, of the hex asked for, of the type
/// asked for (on its JSON text, ignoring ASCII case), and, with `with_items`,
/// holding items.
pub open spec fn py_keeps(
    public: bool,
    reserves: bool,
    hex: Option<Seq<char>>,
    ty: Option<Seq<char>>,
    s: StockpileView,
    with_items: bool,
) -> bool {
    &&& !(public && s.is_reserve)
    &&& !(reserves && !s.is_reserve)
    &&& (hex matches Some(h) ==> s.hex == Some(h))
    &&& (ty matches Some(t) ==> ascii_lowercase(json_type_text(s.stockpile_type))
        == ascii_lowercase(t))
    &&& !(with_items && s.items.len() == 0)
}

/// The stockpiles of `s` that pass the Python filters, in order.
pub open spec fn py_filtered(
    s: Seq<Stockpile>,
    public: bool,
    reserves: bool,
    hex: Option<Seq<char>>,
    ty: Option<Seq<char>>,
    with_items: bool,
) -> Seq<Stockpile> {
    s.filter(|p: Stockpile| py_keeps(public, reserves, hex, ty, p@, with_items))
}

/// The stockpiles of `s` that pass the same filters on the command line
/// (with no faction asked for), in order.
pub open spec fn cli_filtered(
    s: Seq<Stockpile>,
    public: bool,
    reserves: bool,
    hex: Option<Seq<char>>,
    ty: Option<Seq<char>>,
    with_items: bool,
) -> Seq<Stockpile> {
    s.filter(|p: Stockpile| passes(public, reserves, None, hex, ty, p@, with_items))
}

/// Filtering with two predicates that agree on every element gives the same.
proof fn lemma_filter_congruent<A>(s: Seq<A>, p: spec_fn(A) -> bool, q: spec_fn(A) -> bool)
    requires
        forall|i: int| 0 <= i < s.len() ==> p(#[trigger] s[i]) == q(s[i]),
    ensures
        s.filter(p) == s.filter(q),
    decreases s.len(),
{
    reveal_with_fuel(Seq::<_>::filter, 1);
    if s.len() > 0 {
        lemma_filter_congruent(s.drop_last(), p, q);
        assert(p(s[s.len() - 1]) == q(s[s.len() - 1]));
    }
}

/// What each Python filter asks of a stockpile, said field by field: with
/// `public` it is no reserve; with `reserves` it is one; with a hex it has
/// that hex; with a type, its JSON text without the surrounding quotes
/// equals the type up to ASCII case; with `with_items` it holds items. The
/// filters keep exactly the stockpiles that meet all of these.
pub proof fn lemma_py_filter_fields(
    s: Seq<Stockpile>,
    public: bool,
    reserves: bool,
    hex: Option<Seq<char>>,
    ty: Option<Seq<char>>,
    with_items: bool,
)
    ensures
        forall|k: int|
            0 <= k < py_filtered(s, public, reserves, hex, ty, with_items).len() ==> {
                let v = (#[trigger] py_filtered(s, public, reserves, hex, ty, with_items)[k])@;
                &&& public ==> !v.is_reserve
                &&& reserves ==> v.is_reserve
                &&& hex matches Some(h) ==> v.hex == Some(h)
                &&& ty matches Some(t) ==> ascii_lowercase(
                    trim_char(seq!['"'] + json_chars(v.stockpile_type) + seq!['"'], '"'),
                ) == ascii_lowercase(t)
                &&& with_items ==> v.items.len() > 0
            },
        forall|i: int|
            0 <= i < s.len() ==> ({
                let v = (#[trigger] s[i])@;
                &&& !public || !v.is_reserve
                &&& !reserves || v.is_reserve
                &&& (hex matches Some(h) ==> v.hex == Some(h))
                &&& (ty matches Some(t) ==> ascii_lowercase(
                    trim_char(seq!['"'] + json_chars(v.stockpile_type) + seq!['"'], '"'),
                ) == ascii_lowercase(t))
                &&& !with_items || v.items.len() > 0
            } ==> py_filtered(s, public, reserves, hex, ty, with_items).contains(s[i])),
{
    broadcast use vstd::seq_lib::group_filter_ensures;

    let p = |x: Stockpile| py_keeps(public, reserves, hex, ty, x@, with_items);
    assert forall|k: int|
        0 <= k < py_filtered(s, public, reserves, hex, ty, with_items).len() implies p(
        #[trigger] py_filtered(s, public, reserves, hex, ty, with_items)[k],
    ) by {
        s.lemma_filter_pred(p, k);
    }
}

/// Whether one stockpile passes the Python filters; for a type that JSON
/// writes as it is, the same as on the command line.
fn keep_stockpile(
    s: &Stockpile,
    public: bool,
    reserves: bool,
    hex: Option<&str>,
    stockpile_type: Option<&str>,
    with_items: bool,
) -> (r: bool)
    ensures
        r == py_keeps(public, reserves, opt_str(hex), opt_str(stockpile_type), s@, with_items),
        json_plain(s.stockpile_type@) ==> r == passes(
            public,
            reserves,
            None,
            opt_str(hex),
            opt_str(stockpile_type),
            s@,
            with_items,
        ),
{
    // Public/reserve filter
    if public && s.is_reserve {
        return false;
    }
    if reserves && !s.is_reserve {
        return false;
    }
    // Hex filter
    if let Some(h) = hex {
        match &s.hex {
            Some(x) => {
                if !str_eq(x.as_str(), h) {
                    return false;
                }
            },
            None => {
                return false;
            },
        }
    }
    // Type filter, on the type's JSON text without its quotes
    if let Some(type_filter) = stockpile_type {
        let json = match to_json_string(s.stockpile_type.as_str()) {
            Some(j) => j,
            None => String::new(),
        };
        let type_str = trim_matches_char(json.as_str(), '"');
        proof {
            let ty = s.stockpile_type@;
            if json_plain(ty) {
                assert(!ty.contains('"')) by {
                    if ty.contains('"') {
                        let k = choose|k: int| 0 <= k < ty.len() && ty[k] == '"';
                        assert(!json_escaped(ty[k]));
                    }
                }
                lemma_json_chars_plain(ty);
                lemma_trim_enclosed(ty, '"');
            }
        }
        if !eq_ignore_ascii_case(type_str.as_str(), type_filter) {
            return false;
        }
    }
    // With items filter
    if with_items && s.items.len() == 0 {
        return false;
    }
    true
}

/// Apply the Python filters to stockpiles, keeping their order. Where no
/// stockpile's type holds a character that JSON escapes, this keeps what the
/// command line's filters keep with no faction asked for.
pub fn apply_filters(
    stockpiles: Vec<Stockpile>,
    public: bool,
    reserves: bool,
    hex: Option<&str>,
    stockpile_type: Option<&str>,
    with_items: bool,
) -> (r: Vec<Stockpile>)
    ensures
        r@ == py_filtered(
            stockpiles@,
            public,
            reserves,
            opt_str(hex),
            opt_str(stockpile_type),
            with_items,
        ),
        (forall|k: int|
            0 <= k < stockpiles@.len() ==> json_plain(#[trigger] stockpiles@[k].stockpile_type@))
            ==> r@ == cli_filtered(
            stockpiles@,
            public,
            reserves,
            opt_str(hex),
            opt_str(stockpile_type),
            with_items,
        ),
{
    let ghost input = stockpiles@;
    let ghost h = opt_str(hex);
    let ghost t = opt_str(stockpile_type);
    let ghost pred = |p: Stockpile| py_keeps(public, reserves, h, t, p@, with_items);
    let ghost cli = |p: Stockpile| passes(public, reserves, None, h, t, p@, with_items);
    let mut rest = stockpiles;
    let mut kept: Vec<Stockpile> = Vec::new();
    let ghost mut done: int = 0;
    assert(input.take(0) =~= Seq::<Stockpile>::empty());
    proof {
        reveal_with_fuel(Seq::<_>::filter, 1);
    }
    while rest.len() > 0
        invariant
            0 <= done <= input.len(),
            rest@ =~= input.skip(done),
            kept@ == input.take(done).filter(pred),
            h == opt_str(hex),
            t == opt_str(stockpile_type),
            pred == (|p: Stockpile| py_keeps(public, reserves, h, t, p@, with_items)),
            cli == (|p: Stockpile| passes(public, reserves, None, h, t, p@, with_items)),
            forall|j: int|
                0 <= j < done && json_plain(input[j].stockpile_type@) ==> pred(#[trigger] input[j])
                    == cli(input[j]),
        decreases rest.len(),
    {
        let s = rest.remove(0);
        assert(s == input[done]);
        let keep = keep_stockpile(&s, public, reserves, hex, stockpile_type, with_items);
        proof {
            reveal_with_fuel(Seq::<_>::filter, 1);
            assert(input.take(done + 1).drop_last() =~= input.take(done));
            assert(input.take(done + 1).last() == s);
        }
        if keep {
            kept.push(s);
        }
        proof {
            assert(input.skip(done).drop_first() =~= input.skip(done + 1));
            done = done + 1;
        }
    }
    assert(input.take(done) =~= input);
    proof {
        if forall|k: int|
            0 <= k < input.len() ==> json_plain(#[trigger] input[k].stockpile_type@) {
            lemma_filter_congruent(input, pred, cli);
        }
    }
    kept
}

} // verus!
