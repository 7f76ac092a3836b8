//! Bidirectional key codec.
//!
//! Keys travel between two fixed naming conventions: an upper-snake wire
//! style (`RPC_PERSIST_TEST_KEY`) and a lower-kebab transport style
//! (`rpc-persist-test-key`). A codec adds or strips one of three fixed
//! prefixes, and the kebab-style codec additionally reformats the key,
//! character by character.

use vstd::prelude::*;

use crate::strutil::{has_prefix, push_char, starts_with, str_to_owned};

verus! {

/// One character translated to the lower-kebab style: uppercase ASCII
/// letters become lowercase and `_` becomes `-`; everything else is kept.
pub open spec fn http_char_of(c: char) -> char {
    if 'A' <= c && c <= 'Z' {
        ((c as u32) + 32) as char
    } else if c == '_' {
        '-'
    } else {
        c
    }
}

/// One character translated to the upper-snake style: lowercase ASCII
/// letters become uppercase and `-` becomes `_`; everything else is kept.
pub open spec fn rpc_char_of(c: char) -> char {
    if 'a' <= c && c <= 'z' {
        ((c as u32) - 32) as char
    } else if c == '-' {
        '_'
    } else {
        c
    }
}

/// A whole key translated to the lower-kebab style.
pub open spec fn http_format_of(s: Seq<char>) -> Seq<char> {
    s.map_values(|c: char| http_char_of(c))
}

/// A whole key translated to the upper-snake style.
pub open spec fn rpc_format_of(s: Seq<char>) -> Seq<char> {
    s.map_values(|c: char| rpc_char_of(c))
}

/// A key already in upper-snake form: translating it to kebab and back
/// changes nothing, because it holds no lowercase letter and no `-`.
pub open spec fn is_rpc_format(s: Seq<char>) -> bool {
    forall|i: int| 0 <= i < s.len() ==> !('a' <= #[trigger] s[i] <= 'z') && s[i] != '-'
}

/// A key already in lower-kebab form: no uppercase letter and no `_`.
pub open spec fn is_http_format(s: Seq<char>) -> bool {
    forall|i: int| 0 <= i < s.len() ==> !('A' <= #[trigger] s[i] <= 'Z') && s[i] != '_'
}

/// Prefixing in the upper-snake style: plain concatenation.
pub open spec fn add_prefix_rpc(prefix: Seq<char>, key: Seq<char>) -> Seq<char> {
    prefix + key
}

/// Stripping in the upper-snake style: `None` unless the exact prefix is
/// present; otherwise the suffix, unchanged.
pub open spec fn remove_prefix_rpc(prefix: Seq<char>, key: Seq<char>) -> Option<Seq<char>> {
    if has_prefix(key, prefix) {
        Some(key.skip(prefix.len() as int))
    } else {
        None
    }
}

/// Prefixing in the lower-kebab style: concatenation plus reformatting of
/// the key part (the prefix is already kebab-cased).
pub open spec fn add_prefix_http(prefix: Seq<char>, key: Seq<char>) -> Seq<char> {
    prefix + http_format_of(key)
}

/// Stripping in the lower-kebab style: `None` unless the exact prefix is
/// present; otherwise the suffix translated back to upper-snake.
pub open spec fn remove_prefix_http(prefix: Seq<char>, key: Seq<char>) -> Option<Seq<char>> {
    if has_prefix(key, prefix) {
        Some(rpc_format_of(key.skip(prefix.len() as int)))
    } else {
        None
    }
}

fn to_http_char(c: char) -> (r: char)
    ensures
        r == http_char_of(c),
{
    match c {
        'A' => 'a', 'B' => 'b', 'C' => 'c', 'D' => 'd', 'E' => 'e', 'F' => 'f',
        'G' => 'g', 'H' => 'h', 'I' => 'i', 'J' => 'j', 'K' => 'k', 'L' => 'l',
        'M' => 'm', 'N' => 'n', 'O' => 'o', 'P' => 'p', 'Q' => 'q', 'R' => 'r',
        'S' => 's', 'T' => 't', 'U' => 'u', 'V' => 'v', 'W' => 'w', 'X' => 'x',
        'Y' => 'y', 'Z' => 'z', '_' => '-',
        _ => c,
    }
}

fn to_rpc_char(c: char) -> (r: char)
    ensures
        r == rpc_char_of(c),
{
    match c {
        'a' => 'A', 'b' => 'B', 'c' => 'C', 'd' => 'D', 'e' => 'E', 'f' => 'F',
        'g' => 'G', 'h' => 'H', 'i' => 'I', 'j' => 'J', 'k' => 'K', 'l' => 'L',
        'm' => 'M', 'n' => 'N', 'o' => 'O', 'p' => 'P', 'q' => 'Q', 'r' => 'R',
        's' => 'S', 't' => 'T', 'u' => 'U', 'v' => 'V', 'w' => 'W', 'x' => 'X',
        'y' => 'Y', 'z' => 'Z', '-' => '_',
        _ => c,
    }
}

/// Appends `key`, translated to the lower-kebab style, onto `out`.
fn append_http_format(out: &mut String, key: &str)
    ensures
        final(out)@ == old(out)@ + http_format_of(key@),
{
    let n = key.unicode_len();
    let mut i: usize = 0;
    while i < n
        invariant
            n == key@.len(),
            0 <= i <= n,
            out@ == old(out)@ + http_format_of(key@.subrange(0, i as int)),
        decreases n - i,
    {
        let c = key.get_char(i);
        push_char(out, to_http_char(c));
        proof {
            assert(key@.subrange(0, i + 1 as int).drop_last() == key@.subrange(0, i as int));
            assert(old(out)@ + http_format_of(key@.subrange(0, (i + 1) as int)) =~= (old(
                out,
            )@ + http_format_of(key@.subrange(0, i as int))).push(http_char_of(key@[i as int])));
        }
        i += 1;
    }
    proof {
        assert(key@.subrange(0, key@.len() as int) =~= key@);
    }
}

/// Appends `key`, translated to the upper-snake style, onto `out`.
fn append_rpc_format(out: &mut String, key: &str)
    ensures
        final(out)@ == old(out)@ + rpc_format_of(key@),
{
    let n = key.unicode_len();
    let mut i: usize = 0;
    while i < n
        invariant
            n == key@.len(),
            0 <= i <= n,
            out@ == old(out)@ + rpc_format_of(key@.subrange(0, i as int)),
        decreases n - i,
    {
        let c = key.get_char(i);
        push_char(out, to_rpc_char(c));
        proof {
            assert(key@.subrange(0, i + 1 as int).drop_last() == key@.subrange(0, i as int));
            assert(old(out)@ + rpc_format_of(key@.subrange(0, (i + 1) as int)) =~= (old(
                out,
            )@ + rpc_format_of(key@.subrange(0, i as int))).push(rpc_char_of(key@[i as int])));
        }
        i += 1;
    }
    proof {
        assert(key@.subrange(0, key@.len() as int) =~= key@);
    }
}

/// The upper-snake codec: adds and strips the wire-style prefixes without
/// touching the key's own characters.
#[derive(Clone, Copy)]
pub struct RpcConverter;

impl RpcConverter {
    fn add_prefix(&self, prefix: &str, key: &str) -> (r: String)
        ensures
            r@ == add_prefix_rpc(prefix@, key@),
    {
        let mut res = str_to_owned(prefix);
        res.append(key);
        res
    }

    fn remove_prefix(&self, prefix: &str, key: &str) -> (r: Option<String>)
        ensures
            r.deep_view() == remove_prefix_rpc(prefix@, key@),
    {
        if starts_with(key, prefix) {
            let n = key.unicode_len();
            let pn = prefix.unicode_len();
            let rest = key.substring_char(pn, n);
            proof {
                assert(rest@ =~= key@.skip(prefix@.len() as int));
            }
            Some(str_to_owned(rest))
        } else {
            None
        }
    }

    pub fn add_persistent_prefix(&self, key: &str) -> (r: String)
        ensures
            r@ == add_prefix_rpc("RPC_PERSIST_"@, key@),
    {
        self.add_prefix("RPC_PERSIST_", key)
    }

    pub fn add_transient_prefix(&self, key: &str) -> (r: String)
        ensures
            r@ == add_prefix_rpc("RPC_TRANSIT_"@, key@),
    {
        self.add_prefix("RPC_TRANSIT_", key)
    }

    pub fn add_backward_prefix(&self, key: &str) -> (r: String)
        ensures
            r@ == add_prefix_rpc("RPC_BACKWARD_"@, key@),
    {
        self.add_prefix("RPC_BACKWARD_", key)
    }

    pub fn remove_persistent_prefix(&self, key: &str) -> (r: Option<String>)
        ensures
            r.deep_view() == remove_prefix_rpc("RPC_PERSIST_"@, key@),
    {
        self.remove_prefix("RPC_PERSIST_", key)
    }

    pub fn remove_transient_prefix(&self, key: &str) -> (r: Option<String>)
        ensures
            r.deep_view() == remove_prefix_rpc("RPC_TRANSIT_"@, key@),
    {
        self.remove_prefix("RPC_TRANSIT_", key)
    }

    pub fn remove_backward_prefix(&self, key: &str) -> (r: Option<String>)
        ensures
            r.deep_view() == remove_prefix_rpc("RPC_BACKWARD_"@, key@),
    {
        self.remove_prefix("RPC_BACKWARD_", key)
    }
}

/// The lower-kebab codec: adds and strips the transport-style prefixes and
/// reformats the key part between the two styles.
#[derive(Clone, Copy)]
pub struct HttpConverter;

impl HttpConverter {
    /// Translates a whole key to the lower-kebab style, e.g.
    /// `RPC_PERSIST_TEST_KEY` to `rpc-persist-test-key`.
    pub fn to_http_format_string(&self, key: &str) -> (r: String)
        ensures
            r@ == http_format_of(key@),
    {
        let mut out = String::new();
        append_http_format(&mut out, key);
        out
    }

    /// Translates a whole key to the upper-snake style, e.g.
    /// `rpc-persist-test-key` to `RPC_PERSIST_TEST_KEY`.
    pub fn to_rpc_format_string(&self, key: &str) -> (r: String)
        ensures
            r@ == rpc_format_of(key@),
    {
        let mut out = String::new();
        append_rpc_format(&mut out, key);
        out
    }

    fn add_prefix_and_to_http_format(&self, prefix: &str, key: &str) -> (r: String)
        ensures
            r@ == add_prefix_http(prefix@, key@),
    {
        let mut res = str_to_owned(prefix);
        append_http_format(&mut res, key);
        res
    }

    fn remove_prefix_and_to_rpc_format(&self, prefix: &str, key: &str) -> (r: Option<String>)
        ensures
            r.deep_view() == remove_prefix_http(prefix@, key@),
    {
        if starts_with(key, prefix) {
            let n = key.unicode_len();
            let pn = prefix.unicode_len();
            let rest = key.substring_char(pn, n);
            proof {
                assert(rest@ =~= key@.skip(prefix@.len() as int));
            }
            Some(self.to_rpc_format_string(rest))
        } else {
            None
        }
    }

    pub fn add_persistent_prefix(&self, key: &str) -> (r: String)
        ensures
            r@ == add_prefix_http("rpc-persist-"@, key@),
    {
        self.add_prefix_and_to_http_format("rpc-persist-", key)
    }

    pub fn add_transient_prefix(&self, key: &str) -> (r: String)
        ensures
            r@ == add_prefix_http("rpc-transit-"@, key@),
    {
        self.add_prefix_and_to_http_format("rpc-transit-", key)
    }

    pub fn add_backward_prefix(&self, key: &str) -> (r: String)
        ensures
            r@ == add_prefix_http("rpc-backward-"@, key@),
    {
        self.add_prefix_and_to_http_format("rpc-backward-", key)
    }

    pub fn remove_persistent_prefix(&self, key: &str) -> (r: Option<String>)
        ensures
            r.deep_view() == remove_prefix_http("rpc-persist-"@, key@),
    {
        self.remove_prefix_and_to_rpc_format("rpc-persist-", key)
    }

    pub fn remove_transient_prefix(&self, key: &str) -> (r: Option<String>)
        ensures
            r.deep_view() == remove_prefix_http("rpc-transit-"@, key@),
    {
        self.remove_prefix_and_to_rpc_format("rpc-transit-", key)
    }

    pub fn remove_backward_prefix(&self, key: &str) -> (r: Option<String>)
        ensures
            r.deep_view() == remove_prefix_http("rpc-backward-"@, key@),
    {
        self.remove_prefix_and_to_rpc_format("rpc-backward-", key)
    }
}

/// Which of the two fixed naming conventions a key is written in.
#[derive(Clone, Copy)]
pub enum PrefixStyle {
    /// Upper-snake wire style, `RPC_PERSIST_…`.
    Rpc,
    /// Lower-kebab transport style, `rpc-persist-…`.
    Http,
}

/// Which of the three fixed prefixes is applied.
#[derive(Clone, Copy)]
pub enum PrefixKind {
    Persistent,
    Transient,
    Backward,
}

/// The prefix text for a style and kind.
pub open spec fn prefix_text(style: PrefixStyle, kind: PrefixKind) -> Seq<char> {
    match (style, kind) {
        (PrefixStyle::Rpc, PrefixKind::Persistent) => "RPC_PERSIST_"@,
        (PrefixStyle::Rpc, PrefixKind::Transient) => "RPC_TRANSIT_"@,
        (PrefixStyle::Rpc, PrefixKind::Backward) => "RPC_BACKWARD_"@,
        (PrefixStyle::Http, PrefixKind::Persistent) => "rpc-persist-"@,
        (PrefixStyle::Http, PrefixKind::Transient) => "rpc-transit-"@,
        (PrefixStyle::Http, PrefixKind::Backward) => "rpc-backward-"@,
    }
}

/// A key carried into the given style with the given prefix.
pub open spec fn add_key_spec(style: PrefixStyle, kind: PrefixKind, key: Seq<char>) -> Seq<char> {
    match style {
        PrefixStyle::Rpc => add_prefix_rpc(prefix_text(style, kind), key),
        PrefixStyle::Http => add_prefix_http(prefix_text(style, kind), key),
    }
}

/// Whether carrying keys of `dom` into the style keeps them apart. The
/// upper-snake style always does; the lower-kebab style folds case, so two
/// keys differing only by case or separator land on the same wire key.
pub open spec fn style_injective_on(style: PrefixStyle, dom: Set<Seq<char>>) -> bool {
    match style {
        PrefixStyle::Rpc => true,
        PrefixStyle::Http => forall|k1: Seq<char>, k2: Seq<char>|
            dom.contains(k1) && dom.contains(k2) && http_format_of(k1) == http_format_of(k2)
                ==> k1 == k2,
    }
}

/// Adds the prefix for a style and kind to a key.
pub fn add_prefixed_key(style: PrefixStyle, kind: PrefixKind, key: &str) -> (r: String)
    ensures
        r@ == add_key_spec(style, kind, key@),
{
    match (style, kind) {
        (PrefixStyle::Rpc, PrefixKind::Persistent) => RpcConverter.add_persistent_prefix(key),
        (PrefixStyle::Rpc, PrefixKind::Transient) => RpcConverter.add_transient_prefix(key),
        (PrefixStyle::Rpc, PrefixKind::Backward) => RpcConverter.add_backward_prefix(key),
        (PrefixStyle::Http, PrefixKind::Persistent) => HttpConverter.add_persistent_prefix(key),
        (PrefixStyle::Http, PrefixKind::Transient) => HttpConverter.add_transient_prefix(key),
        (PrefixStyle::Http, PrefixKind::Backward) => HttpConverter.add_backward_prefix(key),
    }
}

/// Under `style_injective_on`, distinct keys stay distinct after
/// prefixing.
pub proof fn lemma_add_key_injective(
    style: PrefixStyle,
    kind: PrefixKind,
    k1: Seq<char>,
    k2: Seq<char>,
)
    requires
        add_key_spec(style, kind, k1) == add_key_spec(style, kind, k2),
    ensures
        match style {
            PrefixStyle::Rpc => k1 == k2,
            PrefixStyle::Http => http_format_of(k1) == http_format_of(k2),
        },
{
    let p = prefix_text(style, kind);
    match style {
        PrefixStyle::Rpc => {
            assert((p + k1).skip(p.len() as int) =~= k1);
            assert((p + k2).skip(p.len() as int) =~= k2);
        }
        PrefixStyle::Http => {
            assert((p + http_format_of(k1)).skip(p.len() as int) =~= http_format_of(k1));
            assert((p + http_format_of(k2)).skip(p.len() as int) =~= http_format_of(k2));
        }
    }
}

/// Within a domain the style keeps apart, equal prefixed keys come from
/// equal keys.
pub proof fn lemma_style_injective_apply(
    style: PrefixStyle,
    kind: PrefixKind,
    dom: Set<Seq<char>>,
    k1: Seq<char>,
    k2: Seq<char>,
)
    requires
        style_injective_on(style, dom),
        dom.contains(k1),
        dom.contains(k2),
        add_key_spec(style, kind, k1) == add_key_spec(style, kind, k2),
    ensures
        k1 == k2,
{
    lemma_add_key_injective(style, kind, k1, k2);
}

/// Keys carrying different prefix kinds of one style never collide: the
/// two prefixes have the same length and differ.
pub proof fn lemma_kinds_disjoint(
    style: PrefixStyle,
    k1: Seq<char>,
    k2: Seq<char>,
    kind1: PrefixKind,
    kind2: PrefixKind,
)
    requires
        !(kind1 matches PrefixKind::Persistent && kind2 matches PrefixKind::Persistent),
        !(kind1 matches PrefixKind::Transient && kind2 matches PrefixKind::Transient),
        !(kind1 matches PrefixKind::Backward && kind2 matches PrefixKind::Backward),
    ensures
        add_key_spec(style, kind1, k1) != add_key_spec(style, kind2, k2),
{
    reveal_strlit("RPC_PERSIST_");
    reveal_strlit("RPC_TRANSIT_");
    reveal_strlit("RPC_BACKWARD_");
    reveal_strlit("rpc-persist-");
    reveal_strlit("rpc-transit-");
    reveal_strlit("rpc-backward-");
    let a = add_key_spec(style, kind1, k1);
    let b = add_key_spec(style, kind2, k2);
    let p1 = prefix_text(style, kind1);
    let p2 = prefix_text(style, kind2);
    if a == b {
        assert(a[4] == p1[4]);
        assert(b[4] == p2[4]);
        assert(false);
    }
}

/// Translating one character to kebab and back to snake restores it,
/// provided it was in snake form (not lowercase and not `-`).
pub proof fn lemma_rpc_char_of_http_char_of(c: char)
    requires
        !('a' <= c <= 'z'),
        c != '-',
    ensures
        rpc_char_of(http_char_of(c)) == c,
{
}

/// Translating one character to snake and back to kebab restores it,
/// provided it was in kebab form (not uppercase and not `_`).
pub proof fn lemma_http_char_of_rpc_char_of(c: char)
    requires
        !('A' <= c <= 'Z'),
        c != '_',
    ensures
        http_char_of(rpc_char_of(c)) == c,
{
}

/// The kebab translation of any character is in kebab form, so a
/// kebab-snake-kebab chain collapses to a single kebab translation.
pub proof fn lemma_http_char_of_stable(c: char)
    ensures
        http_char_of(rpc_char_of(http_char_of(c))) == http_char_of(c),
{
}

/// Style conversion is its own inverse: a key in upper-snake form survives
/// a round trip through the lower-kebab form.
pub proof fn lemma_rpc_format_roundtrip(s: Seq<char>)
    requires
        is_rpc_format(s),
    ensures
        rpc_format_of(http_format_of(s)) == s,
{
    assert forall|i: int| 0 <= i < s.len() implies rpc_format_of(http_format_of(s))[i] == s[i] by {
        lemma_rpc_char_of_http_char_of(s[i]);
    }
    assert(rpc_format_of(http_format_of(s)) =~= s);
}

/// Style conversion is its own inverse: a key in lower-kebab form survives
/// a round trip through the upper-snake form.
pub proof fn lemma_http_format_roundtrip(s: Seq<char>)
    requires
        is_http_format(s),
    ensures
        http_format_of(rpc_format_of(s)) == s,
{
    assert forall|i: int| 0 <= i < s.len() implies http_format_of(rpc_format_of(s))[i] == s[i] by {
        lemma_http_char_of_rpc_char_of(s[i]);
    }
    assert(http_format_of(rpc_format_of(s)) =~= s);
}

/// Kebab-translating is stable under a snake round trip, for every key.
pub proof fn lemma_http_format_stable(s: Seq<char>)
    ensures
        http_format_of(rpc_format_of(http_format_of(s))) == http_format_of(s),
{
    assert forall|i: int| 0 <= i < s.len() implies http_format_of(
        rpc_format_of(http_format_of(s)),
    )[i] == http_format_of(s)[i] by {
        lemma_http_char_of_stable(s[i]);
    }
    assert(http_format_of(rpc_format_of(http_format_of(s))) =~= http_format_of(s));
}

/// Stripping a prefix right after adding it restores the key exactly, in
/// the upper-snake style, for every prefix and key.
pub proof fn lemma_remove_after_add_rpc(prefix: Seq<char>, key: Seq<char>)
    ensures
        remove_prefix_rpc(prefix, add_prefix_rpc(prefix, key)) == Some(key),
{
    assert((prefix + key).subrange(0, prefix.len() as int) =~= prefix);
    assert((prefix + key).skip(prefix.len() as int) =~= key);
}

/// Stripping a prefix right after adding it restores the key exactly, in
/// the lower-kebab style, for every key already in upper-snake form.
pub proof fn lemma_remove_after_add_http(prefix: Seq<char>, key: Seq<char>)
    requires
        is_rpc_format(key),
    ensures
        remove_prefix_http(prefix, add_prefix_http(prefix, key)) == Some(key),
{
    let whole = prefix + http_format_of(key);
    assert(whole.subrange(0, prefix.len() as int) =~= prefix);
    assert(whole.skip(prefix.len() as int) =~= http_format_of(key));
    lemma_rpc_format_roundtrip(key);
}

/// Adding a prefix right after stripping it restores the original key, in
/// the upper-snake style.
pub proof fn lemma_add_after_remove_rpc(prefix: Seq<char>, key: Seq<char>)
    requires
        remove_prefix_rpc(prefix, key) is Some,
    ensures
        add_prefix_rpc(prefix, remove_prefix_rpc(prefix, key)->Some_0) == key,
{
    assert(prefix + key.skip(prefix.len() as int) =~= key);
}

/// An add-strip-add chain in the lower-kebab style lands on the same wire
/// key as a single add, for every key.
pub proof fn lemma_add_remove_add_http(prefix: Seq<char>, key: Seq<char>)
    ensures
        add_prefix_http(
            prefix,
            remove_prefix_http(prefix, add_prefix_http(prefix, key))->Some_0,
        ) == add_prefix_http(prefix, key),
{
    let whole = prefix + http_format_of(key);
    assert(whole.subrange(0, prefix.len() as int) =~= prefix);
    assert(whole.skip(prefix.len() as int) =~= http_format_of(key));
    lemma_http_format_stable(key);
}

} // verus!
