//! The headers forwarded to the backend.
//!
//! Headers are held as a list of (name, value bytes) entries with
//! lowercase names, in the order a header map yields them; a name may
//! repeat, once per value. The client's headers pass through with every
//! value; the credentials are then set as `HeaderMap::insert` sets a
//! header, replacing whatever the client sent under those names.
use vstd::prelude::*;
use vstd::string::*;

use crate::error::AppError;
use crate::text::{
    lowercase, owned, push_char, split_char, split_on, text_eq, to_lowercase, trim, trim_ws,
    views_of,
};

verus! {

broadcast use vstd::string::group_string_axioms;

// ---------------------------------------------------------------------------
// Entries
// ---------------------------------------------------------------------------

/// One header: its lowercase name and the bytes of its value.
#[derive(Debug)]
pub struct HeaderEntry {
    pub name: String,
    pub value: Vec<u8>,
}

impl View for HeaderEntry {
    type V = (Seq<char>, Seq<u8>);

    open spec fn view(&self) -> (Seq<char>, Seq<u8>) {
        (self.name@, self.value@)
    }
}

/// The models of a list of headers.
pub open spec fn headers_view(hs: Seq<HeaderEntry>) -> Seq<(Seq<char>, Seq<u8>)> {
    hs.map_values(|h: HeaderEntry| h@)
}

/// `hs` without its entries named `name`.
pub open spec fn without_name(hs: Seq<(Seq<char>, Seq<u8>)>, name: Seq<char>) -> Seq<
    (Seq<char>, Seq<u8>),
>
    decreases hs.len(),
{
    if hs.len() == 0 {
        Seq::empty()
    } else if hs[0].0 == name {
        without_name(hs.drop_first(), name)
    } else {
        seq![hs[0]] + without_name(hs.drop_first(), name)
    }
}

/// The map after setting `name` to `value` alone (as `HeaderMap::insert`
/// does): the first entry of that name takes the new value where it stands
/// and the later ones are dropped; without one, the header is added at the
/// end.
pub open spec fn header_set(
    hs: Seq<(Seq<char>, Seq<u8>)>,
    name: Seq<char>,
    value: Seq<u8>,
) -> Seq<(Seq<char>, Seq<u8>)>
    decreases hs.len(),
{
    if hs.len() == 0 {
        seq![(name, value)]
    } else if hs[0].0 == name {
        seq![(name, value)] + without_name(hs.drop_first(), name)
    } else {
        seq![hs[0]] + header_set(hs.drop_first(), name, value)
    }
}

/// The values of the entries named `name`, in order.
pub open spec fn values_of(hs: Seq<(Seq<char>, Seq<u8>)>, name: Seq<char>) -> Seq<Seq<u8>>
    decreases hs.len(),
{
    if hs.len() == 0 {
        Seq::empty()
    } else if hs[0].0 == name {
        seq![hs[0].1] + values_of(hs.drop_first(), name)
    } else {
        values_of(hs.drop_first(), name)
    }
}

/// The value of the first entry named `name`, if any.
pub open spec fn first_value(hs: Seq<(Seq<char>, Seq<u8>)>, name: Seq<char>) -> Option<Seq<u8>>
    decreases hs.len(),
{
    if hs.len() == 0 {
        None
    } else if hs[0].0 == name {
        Some(hs[0].1)
    } else {
        first_value(hs.drop_first(), name)
    }
}

// ---------------------------------------------------------------------------
// Header values
// ---------------------------------------------------------------------------

/// Whether a byte may stand in a header value: visible or extended bytes
/// and tab, no other control byte and no DEL.
pub open spec fn header_value_byte(b: u8) -> bool {
    (b >= 32 && b != 127) || b == 9
}

/// Whether every byte may stand in a header value.
pub open spec fn valid_header_value(bytes: Seq<u8>) -> bool {
    forall|i: int| 0 <= i < bytes.len() ==> header_value_byte(#[trigger] bytes[i])
}

/// Whether a byte is visible ASCII or tab.
pub open spec fn visible_byte(b: u8) -> bool {
    (b >= 32 && b < 127) || b == 9
}

/// The text of a header value whose bytes are all visible ASCII or tab;
/// none for any other value.
pub open spec fn header_text(bytes: Seq<u8>) -> Option<Seq<char>> {
    if forall|i: int| 0 <= i < bytes.len() ==> visible_byte(#[trigger] bytes[i]) {
        Some(bytes.map_values(|b: u8| b as char))
    } else {
        None
    }
}

/// The header value for `s`. Calls `http::HeaderValue::from_str`, which
/// (in http 1.5.0) accepts the string exactly when each of its UTF-8 bytes
/// is a tab or at least 32 and not 127, and then holds those bytes.
#[verifier::external_body]
fn header_value_from_str(s: &str) -> (r: Option<Vec<u8>>)
    ensures
        match r {
            Some(b) => valid_header_value(s.spec_bytes()) && b@ == s.spec_bytes(),
            None => !valid_header_value(s.spec_bytes()),
        },
{
    match axum::http::HeaderValue::from_str(s) {
        Ok(v) => Some(v.as_bytes().to_vec()),
        Err(_) => None,
    }
}

/// The text of a header value, when all its bytes are visible ASCII or
/// tab (what `HeaderValue::to_str` accepts).
pub fn header_value_text(bytes: &Vec<u8>) -> (r: Option<String>)
    ensures
        match r {
            Some(t) => header_text(bytes@) == Some(t@),
            None => header_text(bytes@) is None,
        },
{
    let mut t = String::new();
    let mut i: usize = 0;
    while i < bytes.len()
        invariant
            i <= bytes@.len(),
            forall|j: int| 0 <= j < i ==> visible_byte(#[trigger] bytes@[j]),
            t@ == bytes@.take(i as int).map_values(|b: u8| b as char),
        decreases bytes.len() - i,
    {
        let b = bytes[i];
        if !((b >= 32 && b < 127) || b == 9) {
            return None;
        }
        push_char(&mut t, b as char);
        i = i + 1;
        assert(t@ =~= bytes@.take(i as int).map_values(|b: u8| b as char));
    }
    assert(bytes@.take(bytes@.len() as int) =~= bytes@);
    Some(t)
}

// ---------------------------------------------------------------------------
// Hop-by-hop headers
// ---------------------------------------------------------------------------

/// The hop-by-hop headers that are never forwarded (and `authorization`,
/// which the backend does not use).
pub open spec fn standard_hop_by_hop(name: Seq<char>) -> bool {
    ||| name == "authorization"@
    ||| name == "content-length"@
    ||| name == "host"@
    ||| name == "transfer-encoding"@
    ||| name == "connection"@
    ||| name == "keep-alive"@
    ||| name == "te"@
    ||| name == "trailers"@
    ||| name == "upgrade"@
}

/// Whether `name` is one of the standard hop-by-hop headers.
pub fn is_standard_hop_by_hop(name: &str) -> (r: bool)
    ensures
        r == standard_hop_by_hop(name@),
{
    text_eq(name, "authorization") || text_eq(name, "content-length") || text_eq(name, "host")
        || text_eq(name, "transfer-encoding") || text_eq(name, "connection") || text_eq(
        name,
        "keep-alive",
    ) || text_eq(name, "te") || text_eq(name, "trailers") || text_eq(name, "upgrade")
}

/// The token a comma-separated piece of a `Connection` value declares:
/// the piece trimmed and lowercased.
pub open spec fn connection_token(piece: Seq<char>) -> Seq<char> {
    lowercase(trim_ws(piece))
}

/// Whether the `Connection` value `value` declares the (non-empty) token `t`.
pub open spec fn is_connection_token(value: Seq<char>, t: Seq<char>) -> bool {
    t.len() > 0 && exists|i: int|
        0 <= i < split_on(value, ',').len() && #[trigger] connection_token(
            split_on(value, ',')[i],
        ) == t
}

/// The header names a `Connection` value declares hop-by-hop (RFC 7230,
/// section 6.1): its comma-separated pieces, trimmed and lowercased, the
/// empty ones left out. Each name occurs once.
pub fn parse_connection_tokens(connection_value: &str) -> (r: Vec<String>)
    ensures
        views_of(r@).no_duplicates(),
        forall|t: Seq<char>| views_of(r@).contains(t) <==> is_connection_token(connection_value@, t),
{
    let pieces = split_char(connection_value, ',');
    let ghost parts = split_on(connection_value@, ',');
    let mut tokens: Vec<String> = Vec::new();
    let mut i: usize = 0;
    while i < pieces.len()
        invariant
            views_of(pieces@) == parts,
            parts == split_on(connection_value@, ','),
            i <= pieces@.len(),
            views_of(tokens@).no_duplicates(),
            forall|t: Seq<char>|
                views_of(tokens@).contains(t) <==> (t.len() > 0 && exists|j: int|
                    0 <= j < i && #[trigger] connection_token(parts[j]) == t),
        decreases pieces.len() - i,
    {
        let trimmed = trim(pieces[i].as_str());
        let token = to_lowercase(trimmed.as_str());
        assert(token@ == connection_token(parts[i as int]));
        let ghost before = views_of(tokens@);
        if !token.as_str().is_empty() && !contains_text(&tokens, token.as_str()) {
            tokens.push(token);
            assert(views_of(tokens@) =~= before.push(token@));
            assert forall|a: int, b: int|
                0 <= a < b < views_of(tokens@).len() implies views_of(tokens@)[a] != views_of(
                tokens@,
            )[b] by {
                if b == before.len() {
                    assert(before.contains(before[a]));
                }
            }
        }
        let ghost after = views_of(tokens@);
        assert forall|t: Seq<char>|
            after.contains(t) <==> (t.len() > 0 && exists|j: int|
                0 <= j < i + 1 && #[trigger] connection_token(parts[j]) == t) by {
            if after.contains(t) && !before.contains(t) {
                assert(connection_token(parts[i as int]) == t);
            }
            if t.len() > 0 && exists|j: int|
                0 <= j < i + 1 && #[trigger] connection_token(parts[j]) == t {
                let j = choose|j: int| 0 <= j < i + 1 && #[trigger] connection_token(parts[j]) == t;
                if j < i {
                    assert(before.contains(t));
                    let k = choose|k: int| 0 <= k < before.len() && before[k] == t;
                    assert(after[k] == t);
                } else {
                    if !before.contains(t) {
                        assert(after[after.len() - 1] == t);
                    } else {
                        let k = choose|k: int| 0 <= k < before.len() && before[k] == t;
                        assert(after[k] == t);
                    }
                }
            }
        }
        i = i + 1;
    }
    tokens
}

/// Whether `list` holds the text `t`.
fn contains_text(list: &Vec<String>, t: &str) -> (r: bool)
    ensures
        r == views_of(list@).contains(t@),
{
    let mut i: usize = 0;
    while i < list.len()
        invariant
            i <= list@.len(),
            forall|j: int| 0 <= j < i ==> list@[j]@ != t@,
        decreases list.len() - i,
    {
        if text_eq(list[i].as_str(), t) {
            assert(views_of(list@)[i as int] == t@);
            return true;
        }
        i = i + 1;
    }
    assert forall|j: int| 0 <= j < views_of(list@).len() implies views_of(list@)[j] != t@ by {
        assert(views_of(list@)[j] == list@[j]@);
    }
    false
}

/// Whether the `Connection` header of `incoming` declares `name`
/// hop-by-hop. Only the first `Connection` value is read, and only when it
/// is visible ASCII text.
pub open spec fn declared_hop_by_hop(incoming: Seq<(Seq<char>, Seq<u8>)>, name: Seq<char>) -> bool {
    match first_value(incoming, "connection"@) {
        Some(v) => match header_text(v) {
            Some(t) => is_connection_token(t, name),
            None => false,
        },
        None => false,
    }
}

/// Whether a header named `name` of `incoming` is left out.
pub open spec fn skipped(incoming: Seq<(Seq<char>, Seq<u8>)>, name: Seq<char>) -> bool {
    standard_hop_by_hop(name) || declared_hop_by_hop(incoming, name)
}

/// The entries of `entries` that are not skipped (by the rules of
/// `incoming`), in order; a repeated name keeps every value.
pub open spec fn kept_headers(
    entries: Seq<(Seq<char>, Seq<u8>)>,
    incoming: Seq<(Seq<char>, Seq<u8>)>,
) -> Seq<(Seq<char>, Seq<u8>)>
    decreases entries.len(),
{
    if entries.len() == 0 {
        Seq::empty()
    } else {
        let prev = kept_headers(entries.drop_last(), incoming);
        let h = entries.last();
        if skipped(incoming, h.0) {
            prev
        } else {
            prev.push(h)
        }
    }
}

/// The forwarded headers: the kept incoming headers, then `app-key` and
/// `app-sign` set to the given value bytes.
pub open spec fn forwarded_headers(
    incoming: Seq<(Seq<char>, Seq<u8>)>,
    key: Seq<u8>,
    sign: Seq<u8>,
) -> Seq<(Seq<char>, Seq<u8>)> {
    header_set(header_set(kept_headers(incoming, incoming), "app-key"@, key), "app-sign"@, sign)
}

// ---------------------------------------------------------------------------
// Building the forwarded headers
// ---------------------------------------------------------------------------

/// A copy of `h`.
fn copy_entry(h: &HeaderEntry) -> (r: HeaderEntry)
    ensures
        r@ == h@,
{
    HeaderEntry { name: h.name.clone(), value: h.value.clone() }
}

/// Sets header `name` to `value` alone in `map` (see `header_set`).
fn set_header(map: &mut Vec<HeaderEntry>, name: &str, value: &Vec<u8>)
    ensures
        headers_view(final(map)@) == header_set(headers_view(old(map)@), name@, value@),
{
    let ghost hs = headers_view(map@);
    let mut out: Vec<HeaderEntry> = Vec::new();
    let mut found = false;
    let mut i: usize = 0;
    assert(hs.skip(0) =~= hs);
    while i < map.len()
        invariant
            i <= map@.len(),
            hs == headers_view(map@),
            header_set(hs, name@, value@) == headers_view(out@) + (if found {
                without_name(hs.skip(i as int), name@)
            } else {
                header_set(hs.skip(i as int), name@, value@)
            }),
        decreases map.len() - i,
    {
        let ghost before = headers_view(out@);
        let ghost h = hs[i as int];
        let ghost rest = hs.skip(i as int);
        assert(h == map@[i as int]@);
        assert(rest[0] == h);
        assert(rest.drop_first() =~= hs.skip(i + 1));
        if text_eq(map[i].name.as_str(), name) {
            if !found {
                let v = value.clone();
                assert(v@ =~= value@);
                out.push(HeaderEntry { name: owned(name), value: v });
                found = true;
                assert(headers_view(out@) =~= before.push((name@, value@)));
                assert(before + header_set(rest, name@, value@) =~= headers_view(out@)
                    + without_name(hs.skip(i + 1), name@));
            } else {
                assert(without_name(rest, name@) == without_name(hs.skip(i + 1), name@));
            }
        } else {
            let e = copy_entry(&map[i]);
            out.push(e);
            assert(headers_view(out@) =~= before.push(h));
            if found {
                assert(before + without_name(rest, name@) =~= headers_view(out@) + without_name(
                    hs.skip(i + 1),
                    name@,
                ));
            } else {
                assert(before + header_set(rest, name@, value@) =~= headers_view(out@)
                    + header_set(hs.skip(i + 1), name@, value@));
            }
        }
        i = i + 1;
    }
    let ghost end = hs.skip(i as int);
    assert(end =~= Seq::<(Seq<char>, Seq<u8>)>::empty());
    if !found {
        let ghost before = headers_view(out@);
        let v = value.clone();
        assert(v@ =~= value@);
        out.push(HeaderEntry { name: owned(name), value: v });
        assert(headers_view(out@) =~= before + header_set(end, name@, value@));
    } else {
        assert(headers_view(out@) =~= headers_view(out@) + without_name(end, name@));
    }
    *map = out;
}

/// The value of the first header named `name`, if any.
fn first_header_value<'a>(hs: &'a Vec<HeaderEntry>, name: &str) -> (r: Option<&'a Vec<u8>>)
    ensures
        match r {
            Some(v) => first_value(headers_view(hs@), name@) == Some(v@),
            None => first_value(headers_view(hs@), name@) is None,
        },
{
    let mut i: usize = 0;
    assert(headers_view(hs@).skip(0) =~= headers_view(hs@));
    while i < hs.len()
        invariant
            i <= hs@.len(),
            first_value(headers_view(hs@), name@) == first_value(
                headers_view(hs@).skip(i as int),
                name@,
            ),
        decreases hs.len() - i,
    {
        let ghost rest = headers_view(hs@).skip(i as int);
        assert(rest[0] == hs@[i as int]@);
        if text_eq(hs[i].name.as_str(), name) {
            return Some(&hs[i].value);
        }
        assert(rest.drop_first() =~= headers_view(hs@).skip(i + 1));
        i = i + 1;
    }
    assert(headers_view(hs@).skip(i as int) =~= Seq::<(Seq<char>, Seq<u8>)>::empty());
    None
}

/// The headers to forward to the backend: the incoming headers without the
/// hop-by-hop ones (the standard ones and those the `Connection` header
/// declares), in order and with every value of a repeated name, then
/// `app-key` and `app-sign` set from the model's credentials. A credential that cannot be a
/// header value is an `api_error`.
pub fn build_forwarded_headers(incoming: &Vec<HeaderEntry>, app_key: &str, app_sign: &str) -> (r:
    Result<Vec<HeaderEntry>, AppError>)
    ensures
        match r {
            Ok(hs) => valid_header_value(app_key.spec_bytes()) && valid_header_value(
                app_sign.spec_bytes(),
            ) && headers_view(hs@) == forwarded_headers(
                headers_view(incoming@),
                app_key.spec_bytes(),
                app_sign.spec_bytes(),
            ),
            Err(e) => if !valid_header_value(app_key.spec_bytes()) {
                e matches AppError::ApiError(m) && m@ == "Invalid app_key value"@
            } else {
                !valid_header_value(app_sign.spec_bytes()) && (e matches AppError::ApiError(m)
                    && m@ == "Invalid app_sign value"@)
            },
        },
{
    let ghost inc = headers_view(incoming@);
    let declared: Vec<String> = match first_header_value(incoming, "connection") {
        Some(v) => match header_value_text(v) {
            Some(t) => parse_connection_tokens(t.as_str()),
            None => Vec::new(),
        },
        None => Vec::new(),
    };
    proof {
        reveal_strlit("connection");
    }
    assert forall|name: Seq<char>| views_of(declared@).contains(name) <==> declared_hop_by_hop(
        inc,
        name,
    ) by {
        if first_value(inc, "connection"@) is None || header_text(
            first_value(inc, "connection"@)->0,
        ) is None {
            assert(views_of(declared@) =~= Seq::<Seq<char>>::empty());
        }
    }
    let mut fwd: Vec<HeaderEntry> = Vec::new();
    let mut i: usize = 0;
    while i < incoming.len()
        invariant
            i <= incoming@.len(),
            inc == headers_view(incoming@),
            forall|name: Seq<char>| views_of(declared@).contains(name) <==> declared_hop_by_hop(
                inc,
                name,
            ),
            headers_view(fwd@) == kept_headers(inc.take(i as int), inc),
        decreases incoming.len() - i,
    {
        assert(inc.take(i + 1).drop_last() =~= inc.take(i as int));
        assert(inc.take(i + 1).last() == incoming@[i as int]@);
        let name = incoming[i].name.as_str();
        if !is_standard_hop_by_hop(name) && !contains_text(&declared, name) {
            let ghost before = headers_view(fwd@);
            fwd.push(copy_entry(&incoming[i]));
            assert(headers_view(fwd@) =~= before.push(incoming@[i as int]@));
        }
        i = i + 1;
    }
    assert(inc.take(inc.len() as int) =~= inc);
    let key = match header_value_from_str(app_key) {
        Some(b) => b,
        None => {
            proof {
                reveal_strlit("Invalid app_key value");
            }
            return Err(AppError::ApiError(owned("Invalid app_key value")));
        },
    };
    set_header(&mut fwd, "app-key", &key);
    let sign = match header_value_from_str(app_sign) {
        Some(b) => b,
        None => {
            proof {
                reveal_strlit("Invalid app_sign value");
            }
            return Err(AppError::ApiError(owned("Invalid app_sign value")));
        },
    };
    set_header(&mut fwd, "app-sign", &sign);
    proof {
        reveal_strlit("app-key");
        reveal_strlit("app-sign");
    }
    Ok(fwd)
}

// ---------------------------------------------------------------------------
// Laws
// ---------------------------------------------------------------------------

proof fn lemma_values_push(hs: Seq<(Seq<char>, Seq<u8>)>, h: (Seq<char>, Seq<u8>), k: Seq<char>)
    ensures
        values_of(hs.push(h), k) == values_of(hs, k) + (if h.0 == k {
            seq![h.1]
        } else {
            Seq::empty()
        }),
    decreases hs.len(),
{
    let p = hs.push(h);
    if hs.len() == 0 {
        assert(p.drop_first() =~= Seq::<(Seq<char>, Seq<u8>)>::empty());
        assert(values_of(p.drop_first(), k) =~= Seq::<Seq<u8>>::empty());
    } else {
        assert(p[0] == hs[0]);
        assert(p.drop_first() =~= hs.drop_first().push(h));
        lemma_values_push(hs.drop_first(), h, k);
    }
    assert(values_of(p, k) =~= values_of(hs, k) + (if h.0 == k {
        seq![h.1]
    } else {
        Seq::empty()
    }));
}

proof fn lemma_values_without(hs: Seq<(Seq<char>, Seq<u8>)>, n: Seq<char>, k: Seq<char>)
    ensures
        values_of(without_name(hs, n), k) == if k == n {
            Seq::<Seq<u8>>::empty()
        } else {
            values_of(hs, k)
        },
    decreases hs.len(),
{
    if hs.len() > 0 {
        lemma_values_without(hs.drop_first(), n, k);
        let w = without_name(hs, n);
        if hs[0].0 != n {
            assert(w[0] == hs[0]);
            assert(w.drop_first() =~= without_name(hs.drop_first(), n));
        }
    }
}

proof fn lemma_values_set(hs: Seq<(Seq<char>, Seq<u8>)>, n: Seq<char>, v: Seq<u8>, k: Seq<char>)
    ensures
        values_of(header_set(hs, n, v), k) == if k == n {
            seq![v]
        } else {
            values_of(hs, k)
        },
    decreases hs.len(),
{
    let r = header_set(hs, n, v);
    if hs.len() == 0 {
        assert(r.drop_first() =~= Seq::<(Seq<char>, Seq<u8>)>::empty());
        assert(values_of(r.drop_first(), k) =~= Seq::<Seq<u8>>::empty());
    } else if hs[0].0 == n {
        lemma_values_without(hs.drop_first(), n, k);
        assert(r[0] == (n, v));
        assert(r.drop_first() =~= without_name(hs.drop_first(), n));
    } else {
        lemma_values_set(hs.drop_first(), n, v, k);
        assert(r[0] == hs[0]);
        assert(r.drop_first() =~= header_set(hs.drop_first(), n, v));
    }
    assert(values_of(r, k) =~= if k == n {
        seq![v]
    } else {
        values_of(hs, k)
    });
}

proof fn lemma_values_kept(
    entries: Seq<(Seq<char>, Seq<u8>)>,
    inc: Seq<(Seq<char>, Seq<u8>)>,
    k: Seq<char>,
)
    ensures
        values_of(kept_headers(entries, inc), k) == if skipped(inc, k) {
            Seq::<Seq<u8>>::empty()
        } else {
            values_of(entries, k)
        },
    decreases entries.len(),
{
    if entries.len() > 0 {
        let init = entries.drop_last();
        let h = entries.last();
        lemma_values_kept(init, inc, k);
        lemma_values_push(init, h, k);
        assert(init.push(h) =~= entries);
        if !skipped(inc, h.0) {
            lemma_values_push(kept_headers(init, inc), h, k);
        }
    } else {
        assert(values_of(entries, k) =~= Seq::<Seq<u8>>::empty());
    }
}

/// The forwarded headers carry `app-key` and `app-sign` once each, with the
/// model's credentials, whatever the client sent under those names.
pub proof fn law_credentials_forwarded(
    incoming: Seq<(Seq<char>, Seq<u8>)>,
    key: Seq<u8>,
    sign: Seq<u8>,
)
    ensures
        values_of(forwarded_headers(incoming, key, sign), "app-key"@) == seq![key],
        values_of(forwarded_headers(incoming, key, sign), "app-sign"@) == seq![sign],
{
    reveal_strlit("app-key");
    reveal_strlit("app-sign");
    assert("app-key"@ != "app-sign"@) by {
        assert("app-key"@[4] != "app-sign"@[4]);
    }
    let k0 = kept_headers(incoming, incoming);
    let k1 = header_set(k0, "app-key"@, key);
    lemma_values_set(k0, "app-key"@, key, "app-key"@);
    lemma_values_set(k1, "app-sign"@, sign, "app-key"@);
    lemma_values_set(k1, "app-sign"@, sign, "app-sign"@);
}

/// Every value the client sent under a name other than `app-key` and
/// `app-sign` is forwarded, in order, unless the name is hop-by-hop; then
/// none is.
pub proof fn law_client_headers_forwarded(
    incoming: Seq<(Seq<char>, Seq<u8>)>,
    key: Seq<u8>,
    sign: Seq<u8>,
    name: Seq<char>,
)
    requires
        name != "app-key"@,
        name != "app-sign"@,
    ensures
        values_of(forwarded_headers(incoming, key, sign), name) == if skipped(incoming, name) {
            Seq::<Seq<u8>>::empty()
        } else {
            values_of(incoming, name)
        },
{
    let k0 = kept_headers(incoming, incoming);
    let k1 = header_set(k0, "app-key"@, key);
    lemma_values_kept(incoming, incoming, name);
    lemma_values_set(k0, "app-key"@, key, name);
    lemma_values_set(k1, "app-sign"@, sign, name);
}

/// Any header other than the nine standard hop-by-hop ones (authorization,
/// content-length, host, transfer-encoding, connection, keep-alive, te,
/// trailers, upgrade), the credentials, and the names the `Connection`
/// header declares is forwarded with all its values, in order.
pub proof fn law_other_headers_forwarded(
    incoming: Seq<(Seq<char>, Seq<u8>)>,
    key: Seq<u8>,
    sign: Seq<u8>,
    name: Seq<char>,
)
    requires
        name != "authorization"@,
        name != "content-length"@,
        name != "host"@,
        name != "transfer-encoding"@,
        name != "connection"@,
        name != "keep-alive"@,
        name != "te"@,
        name != "trailers"@,
        name != "upgrade"@,
        name != "app-key"@,
        name != "app-sign"@,
        !declared_hop_by_hop(incoming, name),
    ensures
        values_of(forwarded_headers(incoming, key, sign), name) == values_of(incoming, name),
{
    law_client_headers_forwarded(incoming, key, sign, name);
}

/// The nine standard hop-by-hop headers are never forwarded.
pub proof fn law_standard_hop_by_hop_dropped(
    incoming: Seq<(Seq<char>, Seq<u8>)>,
    key: Seq<u8>,
    sign: Seq<u8>,
    name: Seq<char>,
)
    requires
        name == "authorization"@
            || name == "content-length"@
            || name == "host"@
            || name == "transfer-encoding"@
            || name == "connection"@
            || name == "keep-alive"@
            || name == "te"@
            || name == "trailers"@
            || name == "upgrade"@,
    ensures
        values_of(forwarded_headers(incoming, key, sign), name) == Seq::<Seq<u8>>::empty(),
{
    reveal_strlit("authorization");
    reveal_strlit("content-length");
    reveal_strlit("host");
    reveal_strlit("transfer-encoding");
    reveal_strlit("connection");
    reveal_strlit("keep-alive");
    reveal_strlit("te");
    reveal_strlit("trailers");
    reveal_strlit("upgrade");
    reveal_strlit("app-key");
    reveal_strlit("app-sign");
    assert(name != "app-key"@ && name != "app-sign"@) by {
        if name.len() == 7 || name.len() == 8 {
            assert(name[0] != 'a');
        }
    }
    law_client_headers_forwarded(incoming, key, sign, name);
}

} // verus!
