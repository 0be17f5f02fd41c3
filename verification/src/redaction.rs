//! Display-safe rendering of URLs.
use vstd::prelude::*;

use crate::text::{
    chars_of, extend, find_char, find_char_exec, join, join_exec, lemma_find_char_bounds, lemma_find_char_is,
    lemma_join_no_char, lemma_split_join_char,
    slice_chars, split, split_exec, string_from_chars, views,
};

verus! {

pub open spec fn redacted_value() -> Seq<char> {
    "%3Credacted%3E"@
}

/// A query pair with its value (if any) replaced by the redaction marker.
pub open spec fn redact_pair(p: Seq<char>) -> Seq<char> {
    let e = find_char(p, '=', 0);
    if e < p.len() {
        p.take(e + 1) + redacted_value()
    } else {
        p
    }
}

pub open spec fn redact_pairs(ps: Seq<Seq<char>>) -> Seq<Seq<char>> {
    ps.map_values(|p: Seq<char>| redact_pair(p))
}

/// The URL with every query value replaced by `%3Credacted%3E`; the path and
/// fragment are kept.
pub open spec fn sanitize_url_for_display_spec(u: Seq<char>) -> Seq<char> {
    let q = find_char(u, '?', 0);
    if q >= u.len() {
        u
    } else {
        let h = find_char(u, '#', q + 1);
        u.take(q + 1) + join(redact_pairs(split(u.subrange(q + 1, h), seq!['&'])), seq!['&'])
            + u.subrange(h, u.len() as int)
    }
}

fn redact_pair_exec(p: &Vec<char>) -> (r: Vec<char>)
    ensures
        r@ == redact_pair(p@),
{
    let e = find_char_exec(p, '=', 0);
    if e < p.len() {
        let mut r = slice_chars(p, 0, e + 1);
        let marker = chars_of("%3Credacted%3E");
        extend(&mut r, &marker);
        r
    } else {
        slice_chars(p, 0, p.len())
    }
}

/// Renders a URL for display without leaking query values.
pub fn sanitize_url_for_display(url: &str) -> (r: String)
    ensures
        r@ == sanitize_url_for_display_spec(url@),
{
    let u = chars_of(url);
    let q = find_char_exec(&u, '?', 0);
    if q >= u.len() {
        return string_from_chars(&u);
    }
    proof {
        lemma_find_char_bounds(u@, '?', 0);
        lemma_find_char_bounds(u@, '#', q + 1);
    }
    let h = find_char_exec(&u, '#', q + 1);
    let query = slice_chars(&u, q + 1, h);
    let mut amp: Vec<char> = Vec::new();
    amp.push('&');
    let pairs = split_exec(&query, &amp);
    let mut redacted: Vec<Vec<char>> = Vec::new();
    let mut i: usize = 0;
    while i < pairs.len()
        invariant
            i <= pairs.len(),
            views(redacted@) == redact_pairs(views(pairs@)).take(i as int),
        decreases pairs.len() - i,
    {
        let ghost prev = views(redacted@);
        let r = redact_pair_exec(&pairs[i]);
        assert(r@ == redact_pairs(views(pairs@))[i as int]);
        redacted.push(r);
        assert(views(redacted@) =~= prev + seq![r@]);
        assert(redact_pairs(views(pairs@)).take(i + 1) =~= redact_pairs(views(pairs@)).take(
            i as int,
        ) + seq![r@]);
        i += 1;
    }
    assert(redact_pairs(views(pairs@)).take(pairs.len() as int) =~= redact_pairs(views(pairs@)));
    let body = join_exec(&redacted, &amp);
    let mut out = slice_chars(&u, 0, q + 1);
    extend(&mut out, &body);
    let tail = slice_chars(&u, h, u.len());
    extend(&mut out, &tail);
    assert(amp@ =~= seq!['&']);
    assert(out@ =~= sanitize_url_for_display_spec(url@));
    string_from_chars(&out)
}

/// A query pair as written: the key, then `=` and the value when it has one.
pub open spec fn query_pair(key: Seq<char>, value: Option<Seq<char>>) -> Seq<char> {
    match value {
        Some(v) => key + seq!['='] + v,
        None => key,
    }
}

/// The query pairs of `keys` and `values`, in order.
pub open spec fn query_pairs(keys: Seq<Seq<char>>, values: Seq<Option<Seq<char>>>) -> Seq<Seq<char>> {
    Seq::new(keys.len(), |i: int| query_pair(keys[i], values[i]))
}

/// The same pairs with every value shown as `%3Credacted%3E`.
pub open spec fn masked_pairs(keys: Seq<Seq<char>>, values: Seq<Option<Seq<char>>>) -> Seq<Seq<char>> {
    Seq::new(
        keys.len(),
        |i: int|
            query_pair(
                keys[i],
                match values[i] {
                    Some(_) => Some("%3Credacted%3E"@),
                    None => None,
                },
            ),
    )
}

/// A URL without a query is shown as it is. For a URL `base?k1=v1&k2&...#fragment`
/// (the fragment may be absent), every pair that has a value is shown as
/// its key and `=%3Credacted%3E`, a pair without a value as its key; the
/// part before the query and the fragment are kept. So no query value of
/// the input is shown.
pub proof fn law_query_values_are_redacted(
    url: Seq<char>,
    base: Seq<char>,
    keys: Seq<Seq<char>>,
    values: Seq<Option<Seq<char>>>,
    fragment: Seq<char>,
)
    requires
        keys.len() > 0,
        values.len() == keys.len(),
        forall|k: int| 0 <= k < base.len() ==> #[trigger] base[k] != '?' && base[k] != '#',
        forall|i: int, k: int|
            0 <= i < keys.len() && 0 <= k < keys[i].len() ==> #[trigger] keys[i][k] != '=' && keys[i][k] != '&'
                && keys[i][k] != '#',
        forall|i: int, k: int|
            0 <= i < values.len() && values[i] is Some && 0 <= k < values[i]->0.len() ==> #[trigger] values[i]->0[k]
                != '&' && values[i]->0[k] != '#',
        fragment.len() == 0 || fragment[0] == '#',
        url == base + seq!['?'] + join(query_pairs(keys, values), seq!['&']) + fragment,
    ensures
        sanitize_url_for_display_spec(url) == base + seq!['?'] + join(masked_pairs(keys, values), seq!['&'])
            + fragment,
{
    let pairs = query_pairs(keys, values);
    let query = join(pairs, seq!['&']);
    let q = base.len() as int;
    assert forall|k: int| 0 <= k < q implies #[trigger] url[k] != '?' by {
        assert(url[k] == base[k]);
    }
    assert(url[q] == '?');
    lemma_find_char_is(url, '?', 0, q);
    assert forall|i: int, k: int| 0 <= i < pairs.len() && 0 <= k < pairs[i].len() implies #[trigger] pairs[i][k]
        != '#' && pairs[i][k] != '&' by {
        let key = keys[i];
        if k < key.len() {
            assert(pairs[i][k] == key[k]);
        } else if values[i] is Some {
            let v = values[i]->0;
            if k > key.len() {
                assert(pairs[i][k] == v[k - key.len() - 1]);
            }
        }
    }
    lemma_join_no_char(pairs, seq!['&'], '#');
    let h = q + 1 + query.len();
    assert forall|k: int| q + 1 <= k < h implies #[trigger] url[k] != '#' by {
        assert(url[k] == query[k - q - 1]);
    }
    if fragment.len() > 0 {
        assert(url[h] == fragment[0]);
    }
    lemma_find_char_is(url, '#', q + 1, h);
    assert(url.subrange(q + 1, h) =~= query);
    assert(query.subrange(0, query.len() as int) =~= query);
    lemma_split_join_char(query, pairs, '&', 0);
    let masked = masked_pairs(keys, values);
    assert forall|i: int| 0 <= i < pairs.len() implies #[trigger] redact_pair(pairs[i]) == masked[i] by {
        let key = keys[i];
        let pair = pairs[i];
        assert forall|k: int| 0 <= k < key.len() implies #[trigger] pair[k] != '=' by {
            assert(pair[k] == key[k]);
        }
        if values[i] is Some {
            assert(pair[key.len() as int] == '=');
            lemma_find_char_is(pair, '=', 0, key.len() as int);
            assert(pair.take(key.len() as int + 1) =~= key + seq!['=']);
        } else {
            lemma_find_char_is(pair, '=', 0, pair.len() as int);
        }
    }
    assert(redact_pairs(pairs) =~= masked);
    assert(url.take(q + 1) =~= base + seq!['?']);
    assert(url.subrange(h, url.len() as int) =~= fragment);
}

/// A URL without `?` is shown as it is.
pub proof fn law_url_without_query_is_unchanged(url: Seq<char>)
    requires
        forall|k: int| 0 <= k < url.len() ==> #[trigger] url[k] != '?',
    ensures
        sanitize_url_for_display_spec(url) == url,
{
    lemma_find_char_is(url, '?', 0, url.len() as int);
}

} // verus!
