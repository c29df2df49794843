//! Registry and token-endpoint URLs, built from an image reference and from
//! an authentication challenge.

use vstd::prelude::*;
use vstd::string::*;
use crate::text::{
    chars_of, has_char, has_prefix, index_of, position_from, position_of, push_range,
    push_range_without, run_at, starts_with, string_of, without, lemma_index_of,
};

verus! {

/// The reference with the default namespace `library/` put in front when it
/// names no namespace of its own.
pub open spec fn with_namespace(p: Seq<char>) -> Seq<char> {
    if p.contains('/') {
        p
    } else {
        "library/"@ + p
    }
}

/// The scheme put in front of the URL: none when the reference already starts
/// with `http`, plain HTTP for `localhost`, HTTPS otherwise.
pub open spec fn scheme_of(p: Seq<char>) -> Seq<char> {
    if starts_with(p, "http"@) {
        Seq::empty()
    } else if starts_with(p, "localhost"@) {
        "http://"@
    } else {
        "https://"@
    }
}

/// A reference with neither `.` nor `:` names no registry host: it is served
/// by the public index.
pub open spec fn on_default_registry(p: Seq<char>) -> bool {
    !p.contains('.') && !p.contains(':')
}

/// `v` with its first `/` widened to `/v2/`.
pub open spec fn insert_api_version(v: Seq<char>) -> Seq<char> {
    let i = index_of(v, '/') as int;
    if i < v.len() {
        v.subrange(0, i) + "/v2/"@ + v.subrange(i + 1, v.len() as int)
    } else {
        v
    }
}

/// The URL of the `latest` manifest of image reference `p`.
pub open spec fn manifest_url(p: Seq<char>) -> Seq<char> {
    let v = with_namespace(p);
    let middle = if on_default_registry(p) {
        "index.docker.io/v2/"@ + v
    } else {
        insert_api_version(v)
    };
    scheme_of(p) + middle + "/manifests/latest"@
}

/// The URL of the `latest` manifest of image reference `path`.
pub fn compute_manifest_url(path: &str) -> (r: String)
    ensures
        r@ == manifest_url(path@),
{
    let p = chars_of(path);
    let mut value: Vec<char> = Vec::new();
    if !has_char(&p, '/') {
        value = chars_of("library/");
    }
    push_range(&mut value, &p, 0, p.len());
    assert(p@.subrange(0, p@.len() as int) =~= p@);
    assert(value@ == with_namespace(p@));
    let mut result: Vec<char> = Vec::new();
    if !has_prefix(&p, &chars_of("http")) {
        if has_prefix(&p, &chars_of("localhost")) {
            result = chars_of("http://");
        } else {
            result = chars_of("https://");
        }
    }
    assert(result@ == scheme_of(p@));
    if !has_char(&p, '.') && !has_char(&p, ':') {
        let mut host = chars_of("index.docker.io/v2/");
        result.append(&mut host);
        result.append(&mut value);
    } else {
        let i = position_of(&value, '/');
        let n = value.len();
        push_range(&mut result, &value, 0, i);
        if i < n {
            let mut sep = chars_of("/v2/");
            result.append(&mut sep);
            push_range(&mut result, &value, i + 1, n);
        } else {
            assert(value@.subrange(0, i as int) =~= value@);
        }
    }
    let mut tail = chars_of("/manifests/latest");
    result.append(&mut tail);
    assert(result@ =~= manifest_url(path@));
    string_of(&result)
}

/// A field's raw value with its quotes taken out when it starts with one.
pub open spec fn unquote(v: Seq<char>) -> Seq<char> {
    if v.len() > 0 && v[0] == '"' {
        without(v, '"')
    } else {
        v
    }
}

/// The value of the first comma-separated item of `fields` that starts with
/// `field`, unquoted; empty when no item does.
pub open spec fn field_value(fields: Seq<char>, field: Seq<char>) -> Seq<char>
    decreases fields.len(),
{
    let i = index_of(fields, ',') as int;
    let item = fields.take(i);
    if starts_with(item, field) {
        unquote(item.skip(field.len() as int))
    } else if i < fields.len() {
        field_value(fields.skip(i + 1), field)
    } else {
        Seq::empty()
    }
}

/// `field_value` over the characters of `fields` from `from` on.
fn find_from(fields: &[char], from: usize, field: &[char]) -> (r: Vec<char>)
    requires
        from <= fields@.len(),
    ensures
        r@ == field_value(fields@.skip(from as int), field@),
    decreases fields@.len() - from,
{
    let end = position_from(fields, from, ',');
    let ghost rest = fields@.skip(from as int);
    assert(rest.take(end - from) =~= fields@.subrange(from as int, end as int));
    let flen = field.len();
    if flen <= end - from && run_at(fields, from, field) {
        let mut r: Vec<char> = Vec::new();
        let start = from + flen;
        assert(rest.take(end - from).subrange(0, flen as int)
            =~= fields@.subrange(from as int, from + flen));
        assert(starts_with(rest.take(end - from), field@));
        let ghost value = rest.take(end - from).skip(flen as int);
        assert(value =~= fields@.subrange(start as int, end as int));
        if start < end && fields[start] == '"' {
            push_range_without(&mut r, fields, start, end, '"');
        } else {
            push_range(&mut r, fields, start, end);
        }
        assert(field_value(rest, field@) == unquote(value));
        r
    } else {
        assert(!starts_with(rest.take(end - from), field@)) by {
            if flen <= end - from {
                assert(rest.take(end - from).subrange(0, flen as int)
                    =~= fields@.subrange(from as int, from + flen));
            }
        }
        if end < fields.len() {
            assert(rest.skip(end - from + 1) =~= fields@.skip(end + 1));
            find_from(fields, end + 1, field)
        } else {
            Vec::new()
        }
    }
}

/// The value of the first comma-separated item of `fields` that starts with
/// `field`, with its quotes taken out when it starts with one; empty when no
/// item does.
pub fn find(fields: &str, field: &str) -> (r: String)
    ensures
        r@ == field_value(fields@, field@),
{
    let f = chars_of(fields);
    let k = chars_of(field);
    assert(f@.skip(0) =~= f@);
    let v = find_from(&f, 0, &k);
    string_of(&v)
}

/// The token endpoint named by a `Bearer` challenge: the realm, with the
/// service and scope as query; empty unless the challenge starts with
/// `Bearer ` and gives all three.
pub open spec fn token_url(a: Seq<char>) -> Seq<char> {
    if !starts_with(a, "Bearer "@) {
        Seq::empty()
    } else {
        let fields = a.skip(7);
        let realm = field_value(fields, "realm="@);
        let scope = field_value(fields, "scope="@);
        let service = field_value(fields, "service="@);
        if realm.len() == 0 || scope.len() == 0 || service.len() == 0 {
            Seq::empty()
        } else {
            realm + "?service="@ + service + "&scope="@ + scope
        }
    }
}

/// The token endpoint named by the challenge `auth`.
pub fn compute_token_url(auth: &str) -> (r: String)
    ensures
        r@ == token_url(auth@),
{
    let a = chars_of(auth);
    let bearer = chars_of("Bearer ");
    proof {
        reveal_strlit("Bearer ");
    }
    if !has_prefix(&a, &bearer) {
        return String::new();
    }
    let mut fields: Vec<char> = Vec::new();
    push_range(&mut fields, &a, 7, a.len());
    assert(fields@ =~= auth@.skip(7));
    assert(fields@.skip(0) =~= fields@);
    let realm = find_from(&fields, 0, &chars_of("realm="));
    let scope = find_from(&fields, 0, &chars_of("scope="));
    let service = find_from(&fields, 0, &chars_of("service="));
    if realm.len() == 0 || scope.len() == 0 || service.len() == 0 {
        return String::new();
    }
    let mut result = realm;
    result.append(&mut chars_of("?service="));
    let mut service = service;
    result.append(&mut service);
    result.append(&mut chars_of("&scope="));
    let mut scope = scope;
    result.append(&mut scope);
    string_of(&result)
}

/// A reference without a namespace gets `library/` in front of its name:
/// on the public index right after the API prefix, on a named host before the
/// `v2/` that follows the first slash.
pub proof fn lemma_default_namespace(p: Seq<char>)
    requires
        !p.contains('/'),
    ensures
        on_default_registry(p) ==> manifest_url(p) == scheme_of(p) + "index.docker.io/v2/"@
            + "library/"@ + p + "/manifests/latest"@,
        !on_default_registry(p) ==> manifest_url(p) == scheme_of(p) + "library/v2/"@ + p
            + "/manifests/latest"@,
{
    reveal_strlit("library/");
    reveal_strlit("library/v2/");
    reveal_strlit("/v2/");
    let v = "library/"@ + p;
    assert(v[7] == '/');
    assert forall|j: int| 0 <= j < 7 implies v[j] != '/' by {}
    lemma_index_of(v, '/', 7);
    assert(v.subrange(0, 7) + "/v2/"@ + v.subrange(8, v.len() as int) =~= "library/v2/"@ + p);
    assert(("index.docker.io/v2/"@ + v) =~= "index.docker.io/v2/"@ + "library/"@ + p);
}

/// Some comma-separated item of `fields` starts with `field`.
pub open spec fn has_item(fields: Seq<char>, field: Seq<char>) -> bool
    decreases fields.len(),
{
    let i = index_of(fields, ',') as int;
    starts_with(fields.take(i), field) || (i < fields.len() && has_item(fields.skip(i + 1), field))
}

/// A field that no item names has an empty value.
pub proof fn lemma_absent_field(fields: Seq<char>, field: Seq<char>)
    requires
        !has_item(fields, field),
    ensures
        field_value(fields, field).len() == 0,
    decreases fields.len(),
{
    let i = index_of(fields, ',') as int;
    if i < fields.len() {
        lemma_absent_field(fields.skip(i + 1), field);
    }
}

/// A challenge that is not a `Bearer` challenge, or that names no realm, no
/// service or no scope, gives no token endpoint.
pub proof fn lemma_unusable_challenge(a: Seq<char>)
    requires
        !starts_with(a, "Bearer "@) || !has_item(a.skip(7), "realm="@) || !has_item(
            a.skip(7),
            "service="@,
        ) || !has_item(a.skip(7), "scope="@),
    ensures
        token_url(a).len() == 0,
{
    if starts_with(a, "Bearer "@) {
        let fields = a.skip(7);
        if !has_item(fields, "realm="@) {
            lemma_absent_field(fields, "realm="@);
        } else if !has_item(fields, "service="@) {
            lemma_absent_field(fields, "service="@);
        } else {
            lemma_absent_field(fields, "scope="@);
        }
    }
}

/// Taking out `c` distributes over concatenation.
proof fn lemma_without_concat(a: Seq<char>, b: Seq<char>, c: char)
    ensures
        without(a + b, c) == without(a, c) + without(b, c),
    decreases b.len(),
{
    if b.len() == 0 {
        assert(a + b =~= a);
        assert(without(a, c) + without(b, c) =~= without(a, c));
    } else {
        assert((a + b).drop_last() =~= a + b.drop_last());
        assert((a + b).last() == b.last());
        lemma_without_concat(a, b.drop_last(), c);
        if b.last() != c {
            assert(without(a, c) + without(b.drop_last(), c).push(b.last()) =~= (without(a, c)
                + without(b.drop_last(), c)).push(b.last()));
        }
    }
}

/// Taking out a character that does not occur changes nothing.
proof fn lemma_without_absent(s: Seq<char>, c: char)
    requires
        !s.contains(c),
    ensures
        without(s, c) == s,
    decreases s.len(),
{
    if s.len() > 0 {
        assert(!s.drop_last().contains(c)) by {
            if s.drop_last().contains(c) {
                let j = choose|j: int| 0 <= j < s.drop_last().len() && s.drop_last()[j] == c;
                assert(s[j] == c);
            }
        }
        lemma_without_absent(s.drop_last(), c);
        assert(s.last() != c) by {
            assert(s[s.len() - 1] == s.last());
        }
        assert(s.drop_last().push(s.last()) =~= s);
    }
}

/// `s` does not start with `p` when they differ at position `k`.
proof fn lemma_not_prefix(s: Seq<char>, p: Seq<char>, k: int)
    requires
        0 <= k < p.len(),
        k < s.len(),
        s[k] != p[k],
    ensures
        !starts_with(s, p),
{
    if p.len() <= s.len() {
        assert(s.subrange(0, p.len() as int)[k] == s[k]);
    }
}

/// The value of the first item when it is followed by a comma.
proof fn lemma_first_item(item: Seq<char>, rest: Seq<char>, field: Seq<char>)
    requires
        !item.contains(','),
    ensures
        field_value(item + seq![','] + rest, field) == if starts_with(item, field) {
            unquote(item.skip(field.len() as int))
        } else {
            field_value(rest, field)
        },
{
    let s = item + seq![','] + rest;
    assert forall|j: int| 0 <= j < item.len() implies s[j] != ',' by {
        assert(s[j] == item[j]);
        if item[j] == ',' {
            assert(item.contains(','));
        }
    }
    lemma_index_of(s, ',', item.len() as int);
    assert(s.take(item.len() as int) =~= item);
    assert(s.skip(item.len() as int + 1) =~= rest);
}

/// The value of the last item.
proof fn lemma_last_item(item: Seq<char>, field: Seq<char>)
    requires
        !item.contains(','),
    ensures
        field_value(item, field) == if starts_with(item, field) {
            unquote(item.skip(field.len() as int))
        } else {
            Seq::<char>::empty()
        },
{
    assert forall|j: int| 0 <= j < item.len() implies item[j] != ',' by {
        if item[j] == ',' {
            assert(item.contains(','));
        }
    }
    lemma_index_of(item, ',', item.len() as int);
    assert(item.take(item.len() as int) =~= item);
}

/// A value with neither quotes nor commas in it.
pub open spec fn plain(v: Seq<char>) -> bool {
    !v.contains('"') && !v.contains(',')
}

/// The quote put around a value, or nothing.
pub open spec fn quote(quoted: bool) -> Seq<char> {
    if quoted {
        seq!['"']
    } else {
        Seq::empty()
    }
}

/// The item `key` followed by `v`, in quotes or bare.
pub open spec fn item_of(key: Seq<char>, v: Seq<char>, quoted: bool) -> Seq<char> {
    key + quote(quoted) + v + quote(quoted)
}

/// A `Bearer` challenge naming realm, service and scope in that order, with
/// each value in quotes or bare.
pub open spec fn bearer_challenge(
    realm: Seq<char>,
    service: Seq<char>,
    scope: Seq<char>,
    quoted: bool,
) -> Seq<char> {
    "Bearer "@ + (item_of("realm="@, realm, quoted) + seq![','] + (item_of(
        "service="@,
        service,
        quoted,
    ) + seq![','] + item_of("scope="@, scope, quoted)))
}

/// An item starts with its key and has the plain value.
proof fn lemma_item(key: Seq<char>, v: Seq<char>, quoted: bool)
    requires
        plain(v),
        !key.contains(','),
    ensures
        starts_with(item_of(key, v, quoted), key),
        unquote(item_of(key, v, quoted).skip(key.len() as int)) == v,
        !item_of(key, v, quoted).contains(','),
{
    let it = item_of(key, v, quoted);
    let q = quote(quoted);
    assert(it.subrange(0, key.len() as int) =~= key);
    assert(it.skip(key.len() as int) =~= q + v + q);
    if quoted {
        lemma_without_concat(q + v, q, '"');
        lemma_without_concat(q, v, '"');
        lemma_without_absent(v, '"');
        assert(without(q, '"') =~= Seq::<char>::empty()) by {
            assert(q.drop_last() =~= Seq::<char>::empty());
            assert(q.last() == '"');
            assert(without(q.drop_last(), '"') =~= Seq::<char>::empty());
        }
        assert((q + v + q)[0] == '"');
    } else {
        assert(q + v + q =~= v);
        if v.len() > 0 && v[0] == '"' {
            assert(v.contains('"'));
        }
    }
    assert forall|j: int| 0 <= j < it.len() implies it[j] != ',' by {
        if j < key.len() {
            assert(it[j] == key[j]);
            if key[j] == ',' {
                assert(key.contains(','));
            }
        } else if quoted && j == key.len() {
        } else if quoted && j == it.len() - 1 {
        } else {
            let k = if quoted { j - key.len() - 1 } else { j - key.len() };
            assert(it[j] == v[k]);
            if v[k] == ',' {
                assert(v.contains(','));
            }
        }
    }
}

/// The three fields read out of a `Bearer` challenge, quoted or not.
proof fn lemma_challenge_fields(
    realm: Seq<char>,
    service: Seq<char>,
    scope: Seq<char>,
    quoted: bool,
)
    requires
        plain(realm),
        plain(service),
        plain(scope),
    ensures
        starts_with(bearer_challenge(realm, service, scope, quoted), "Bearer "@),
        field_value(bearer_challenge(realm, service, scope, quoted).skip(7), "realm="@) == realm,
        field_value(bearer_challenge(realm, service, scope, quoted).skip(7), "service="@)
            == service,
        field_value(bearer_challenge(realm, service, scope, quoted).skip(7), "scope="@) == scope,
{
    reveal_strlit("Bearer ");
    reveal_strlit("realm=");
    reveal_strlit("service=");
    reveal_strlit("scope=");
    let r = "realm="@;
    let sv = "service="@;
    let sc = "scope="@;
    assert(!r.contains(',')) by {
        if r.contains(',') {
            let j = choose|j: int| 0 <= j < r.len() && r[j] == ',';
        }
    }
    assert(!sv.contains(',')) by {
        if sv.contains(',') {
            let j = choose|j: int| 0 <= j < sv.len() && sv[j] == ',';
        }
    }
    assert(!sc.contains(',')) by {
        if sc.contains(',') {
            let j = choose|j: int| 0 <= j < sc.len() && sc[j] == ',';
        }
    }
    let i1 = item_of(r, realm, quoted);
    let i2 = item_of(sv, service, quoted);
    let i3 = item_of(sc, scope, quoted);
    lemma_item(r, realm, quoted);
    lemma_item(sv, service, quoted);
    lemma_item(sc, scope, quoted);
    let a = bearer_challenge(realm, service, scope, quoted);
    let fields = i1 + seq![','] + (i2 + seq![','] + i3);
    assert(a.subrange(0, 7) =~= "Bearer "@);
    assert(a.skip(7) =~= fields);
    assert(i1[0] == 'r' && i2[0] == 's' && i3[0] == 's');
    assert(i2[1] == 'e' && i3[1] == 'c');
    lemma_not_prefix(i1, sv, 0);
    lemma_not_prefix(i1, sc, 0);
    lemma_not_prefix(i2, sc, 1);
    lemma_not_prefix(i2, r, 0);
    lemma_not_prefix(i3, r, 0);
    lemma_not_prefix(i3, sv, 1);
    lemma_first_item(i1, i2 + seq![','] + i3, r);
    lemma_first_item(i1, i2 + seq![','] + i3, sv);
    lemma_first_item(i1, i2 + seq![','] + i3, sc);
    lemma_first_item(i2, i3, sv);
    lemma_first_item(i2, i3, sc);
    lemma_last_item(i3, sc);
}

/// Quoting the values of a `Bearer` challenge does not change the token
/// endpoint; with all three values present it is the realm with the service
/// and scope as query.
pub proof fn lemma_quotes_ignored(realm: Seq<char>, service: Seq<char>, scope: Seq<char>)
    requires
        plain(realm),
        plain(service),
        plain(scope),
    ensures
        token_url(bearer_challenge(realm, service, scope, true)) == token_url(
            bearer_challenge(realm, service, scope, false),
        ),
        realm.len() > 0 && service.len() > 0 && scope.len() > 0 ==> token_url(
            bearer_challenge(realm, service, scope, false),
        ) == realm + "?service="@ + service + "&scope="@ + scope,
{
    lemma_challenge_fields(realm, service, scope, true);
    lemma_challenge_fields(realm, service, scope, false);
}

} // verus!
