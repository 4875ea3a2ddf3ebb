//! The mirror policy: which address to try at which attempt.
//!
//! The same image is served under four host names and two schemes. An
//! attempt number picks one of eight places in a ring, and each place has
//! its scheme and its host, so that successive attempts go round all of them:
//!
//! | place | scheme | host |
//! |---|---|---|
//! | 0 | as announced | as announced |
//! | 1 | secure | `i3.hdslb.com` |
//! | 2 | as announced | `i3.hdslb.com` |
//! | 3 | secure | `i2.hdslb.com` |
//! | 4 | as announced | `i2.hdslb.com` |
//! | 5 | secure | `i1.hdslb.com` |
//! | 6 | as announced | `i1.hdslb.com` |
//! | 7 | secure | as announced |
//!
//! The table is for an address that begins with a scheme, `http://` or
//! `https://`, and the host `i0.hdslb.com`; what follows the host is never
//! touched. An address that begins otherwise has the same texts replaced
//! wherever they stand in it.
use vstd::prelude::*;
use vstd::string::StringExecFns;
use crate::text::chars_of;
use crate::text::string_of;

verus! {

/// Number of places in the ring.
pub const RING: u32 = 8;

/// The host at place `turn` of the ring.
pub open spec fn host_at(turn: nat) -> Seq<char> {
    if turn == 1 || turn == 2 {
        "i3.hdslb.com"@
    } else if turn == 3 || turn == 4 {
        "i2.hdslb.com"@
    } else if turn == 5 || turn == 6 {
        "i1.hdslb.com"@
    } else {
        "i0.hdslb.com"@
    }
}

/// The scheme at place `turn` of the ring, for an address announced with
/// `scheme`: the secure one at the odd places, else the announced one.
pub open spec fn scheme_at(scheme: Seq<char>, turn: nat) -> Seq<char> {
    if turn % 2 == 1 {
        "https://"@
    } else {
        scheme
    }
}

/// `text` with every occurrence of `from` replaced by `to`, found from the
/// left, an occurrence starting only where the one before has ended.
pub open spec fn replaced(text: Seq<char>, from: Seq<char>, to: Seq<char>) -> Seq<char>
    recommends
        from.len() > 0,
    decreases text.len(),
{
    if from.len() == 0 || text.len() < from.len() {
        text
    } else if text.take(from.len() as int) == from {
        to + replaced(text.skip(from.len() as int), from, to)
    } else {
        seq![text[0]] + replaced(text.skip(1), from, to)
    }
}

/// What place `turn` of the ring, from 1 to 7, makes of an address that
/// does not begin with a scheme and the first host: the texts of scheme and
/// host are replaced wherever they stand.
pub open spec fn rewritten(base: Seq<char>, turn: nat) -> Seq<char> {
    if turn == 7 {
        replaced(base, "http://"@, "https://"@)
    } else if turn % 2 == 1 {
        replaced(base, "http://i0.hdslb.com"@, "https://"@ + host_at(turn))
    } else {
        replaced(base, "i0.hdslb.com"@, host_at(turn))
    }
}

/// The address to try at `attempt`, for a block announced under `base`.
pub open spec fn mirror_url(base: Seq<char>, attempt: nat) -> Seq<char> {
    let turn = attempt % 8;
    if turn == 0 {
        base
    } else if "http://i0.hdslb.com"@.is_prefix_of(base) {
        scheme_at("http://"@, turn) + host_at(turn) + base.skip(
            "http://i0.hdslb.com"@.len() as int,
        )
    } else if "https://i0.hdslb.com"@.is_prefix_of(base) {
        scheme_at("https://"@, turn) + host_at(turn) + base.skip(
            "https://i0.hdslb.com"@.len() as int,
        )
    } else {
        rewritten(base, turn)
    }
}

/// The policy goes round in eight: attempt 0 is the address as announced,
/// and eight attempts later the same address comes up again.
pub proof fn lemma_mirror_ring(base: Seq<char>, attempt: nat)
    ensures
        mirror_url(base, 0) == base,
        mirror_url(base, attempt + 8) == mirror_url(base, attempt),
        mirror_url(base, attempt) == mirror_url(base, attempt % 8),
{
}

/// What the policy makes of an address under the plain scheme and the first
/// host: each attempt has its own scheme and host, and what follows the host
/// stays as it is.
pub proof fn lemma_plain_forms(rest: Seq<char>)
    ensures
        ({
            let base = "http://i0.hdslb.com"@ + rest;
            &&& mirror_url(base, 0) == "http://i0.hdslb.com"@ + rest
            &&& mirror_url(base, 1) == "https://i3.hdslb.com"@ + rest
            &&& mirror_url(base, 2) == "http://i3.hdslb.com"@ + rest
            &&& mirror_url(base, 3) == "https://i2.hdslb.com"@ + rest
            &&& mirror_url(base, 4) == "http://i2.hdslb.com"@ + rest
            &&& mirror_url(base, 5) == "https://i1.hdslb.com"@ + rest
            &&& mirror_url(base, 6) == "http://i1.hdslb.com"@ + rest
            &&& mirror_url(base, 7) == "https://i0.hdslb.com"@ + rest
        }),
{
    reveal_strlit("http://");
    reveal_strlit("https://");
    reveal_strlit("i0.hdslb.com");
    reveal_strlit("i1.hdslb.com");
    reveal_strlit("i2.hdslb.com");
    reveal_strlit("i3.hdslb.com");
    reveal_strlit("http://i0.hdslb.com");
    reveal_strlit("http://i1.hdslb.com");
    reveal_strlit("http://i2.hdslb.com");
    reveal_strlit("http://i3.hdslb.com");
    reveal_strlit("https://i0.hdslb.com");
    reveal_strlit("https://i1.hdslb.com");
    reveal_strlit("https://i2.hdslb.com");
    reveal_strlit("https://i3.hdslb.com");
    let base = "http://i0.hdslb.com"@ + rest;
    assert(base.subrange(0, 19) =~= "http://i0.hdslb.com"@);
    assert(base.skip(19) =~= rest);
    assert("https://"@ + "i3.hdslb.com"@ =~= "https://i3.hdslb.com"@);
    assert("http://"@ + "i3.hdslb.com"@ =~= "http://i3.hdslb.com"@);
    assert("https://"@ + "i2.hdslb.com"@ =~= "https://i2.hdslb.com"@);
    assert("http://"@ + "i2.hdslb.com"@ =~= "http://i2.hdslb.com"@);
    assert("https://"@ + "i1.hdslb.com"@ =~= "https://i1.hdslb.com"@);
    assert("http://"@ + "i1.hdslb.com"@ =~= "http://i1.hdslb.com"@);
    assert("https://"@ + "i0.hdslb.com"@ =~= "https://i0.hdslb.com"@);
}

/// What the policy makes of an address under the secure scheme and the first
/// host: the scheme stays secure at every attempt, each attempt has its
/// host, and what follows the host stays as it is.
pub proof fn lemma_secure_forms(rest: Seq<char>)
    ensures
        ({
            let base = "https://i0.hdslb.com"@ + rest;
            &&& mirror_url(base, 0) == "https://i0.hdslb.com"@ + rest
            &&& mirror_url(base, 1) == "https://i3.hdslb.com"@ + rest
            &&& mirror_url(base, 2) == "https://i3.hdslb.com"@ + rest
            &&& mirror_url(base, 3) == "https://i2.hdslb.com"@ + rest
            &&& mirror_url(base, 4) == "https://i2.hdslb.com"@ + rest
            &&& mirror_url(base, 5) == "https://i1.hdslb.com"@ + rest
            &&& mirror_url(base, 6) == "https://i1.hdslb.com"@ + rest
            &&& mirror_url(base, 7) == "https://i0.hdslb.com"@ + rest
        }),
{
    reveal_strlit("http://");
    reveal_strlit("https://");
    reveal_strlit("i0.hdslb.com");
    reveal_strlit("i1.hdslb.com");
    reveal_strlit("i2.hdslb.com");
    reveal_strlit("i3.hdslb.com");
    reveal_strlit("http://i0.hdslb.com");
    reveal_strlit("https://i0.hdslb.com");
    reveal_strlit("https://i1.hdslb.com");
    reveal_strlit("https://i2.hdslb.com");
    reveal_strlit("https://i3.hdslb.com");
    let base = "https://i0.hdslb.com"@ + rest;
    assert(base.subrange(0, 20) =~= "https://i0.hdslb.com"@);
    assert(base.skip(20) =~= rest);
    assert(base[4] == 's');
    assert(!"http://i0.hdslb.com"@.is_prefix_of(base)) by {
        if "http://i0.hdslb.com"@.is_prefix_of(base) {
            assert(base.subrange(0, 19)[4] == "http://i0.hdslb.com"@[4]);
        }
    }
    assert("https://"@ + "i3.hdslb.com"@ =~= "https://i3.hdslb.com"@);
    assert("https://"@ + "i2.hdslb.com"@ =~= "https://i2.hdslb.com"@);
    assert("https://"@ + "i1.hdslb.com"@ =~= "https://i1.hdslb.com"@);
    assert("https://"@ + "i0.hdslb.com"@ =~= "https://i0.hdslb.com"@);
}

/// For an address under the plain scheme and the first host, the eight
/// attempts of one round go to eight addresses of which no two are the same.
pub proof fn lemma_mirrors_differ(rest: Seq<char>, first: nat, second: nat)
    requires
        first % 8 != second % 8,
    ensures
        mirror_url("http://i0.hdslb.com"@ + rest, first) != mirror_url(
            "http://i0.hdslb.com"@ + rest,
            second,
        ),
{
    let base = "http://i0.hdslb.com"@ + rest;
    lemma_plain_forms(rest);
    lemma_mirror_ring(base, first);
    lemma_mirror_ring(base, second);
    reveal_strlit("http://i0.hdslb.com");
    reveal_strlit("http://i1.hdslb.com");
    reveal_strlit("http://i2.hdslb.com");
    reveal_strlit("http://i3.hdslb.com");
    reveal_strlit("https://i0.hdslb.com");
    reveal_strlit("https://i1.hdslb.com");
    reveal_strlit("https://i2.hdslb.com");
    reveal_strlit("https://i3.hdslb.com");
    let one = mirror_url(base, first % 8);
    let other = mirror_url(base, second % 8);
    if one.len() == other.len() {
        assert(one[8] != other[8] || one[9] != other[9]);
    }
}

/// Whether `pattern` stands in `text` at index `at`.
pub open spec fn stands_at(text: Seq<char>, pattern: Seq<char>, at: int) -> bool {
    0 <= at && at + pattern.len() <= text.len() && text.subrange(at, at + pattern.len())
        == pattern
}

/// Whether `pattern` stands somewhere in `text`.
pub open spec fn occurs(text: Seq<char>, pattern: Seq<char>) -> bool {
    exists|at: int| stands_at(text, pattern, at)
}

/// A stretch at the head of a text in which `from` does not begin is kept
/// as it is.
pub proof fn lemma_replaced_skips(text: Seq<char>, from: Seq<char>, to: Seq<char>, count: nat)
    requires
        from.len() > 0,
        count <= text.len(),
        forall|at: int| 0 <= at < count ==> !stands_at(text, from, at),
    ensures
        replaced(text, from, to) == text.take(count as int) + replaced(
            text.skip(count as int),
            from,
            to,
        ),
    decreases count,
{
    if count == 0 {
        assert(text.skip(0) =~= text);
    } else if text.len() < from.len() {
    } else {
        let tail = text.skip(1);
        assert(!stands_at(text, from, 0));
        assert forall|at: int| 0 <= at < count - 1 implies !stands_at(tail, from, at) by {
            if stands_at(tail, from, at) {
                assert(tail.subrange(at, at + from.len()) =~= text.subrange(
                    at + 1,
                    at + 1 + from.len(),
                ));
                assert(stands_at(text, from, at + 1));
            }
        }
        lemma_replaced_skips(tail, from, to, (count - 1) as nat);
        assert(tail.skip(count - 1) =~= text.skip(count as int));
    }
}

/// A text in which `from` does not occur is left as it is.
pub proof fn lemma_replaced_without_occurrence(text: Seq<char>, from: Seq<char>, to: Seq<char>)
    requires
        from.len() > 0,
        !occurs(text, from),
    ensures
        replaced(text, from, to) == text,
{
    lemma_replaced_skips(text, from, to, text.len());
}

/// An address elsewhere, in which the first host is not named at all, is
/// tried as it is at the attempts that only change the host.
pub proof fn lemma_other_host_is_kept(base: Seq<char>, attempt: nat)
    requires
        !occurs(base, "i0.hdslb.com"@),
        attempt % 8 != 7,
    ensures
        mirror_url(base, attempt) == base,
{
    reveal_strlit("http://");
    reveal_strlit("https://");
    reveal_strlit("i0.hdslb.com");
    reveal_strlit("http://i0.hdslb.com");
    reveal_strlit("https://i0.hdslb.com");
    let host = "i0.hdslb.com"@;
    let plain = "http://i0.hdslb.com"@;
    let secure = "https://i0.hdslb.com"@;
    assert forall|at: int| !stands_at(base, plain, at) by {
        if stands_at(base, plain, at) {
            assert(base.subrange(at + 7, at + 19) =~= base.subrange(at, at + 19).subrange(7, 19));
            assert(plain.subrange(7, 19) =~= host);
            assert(stands_at(base, host, at + 7));
        }
    }
    if plain.is_prefix_of(base) {
        assert(stands_at(base, plain, 0));
    }
    if secure.is_prefix_of(base) {
        assert(base.subrange(8, 20) =~= base.subrange(0, 20).subrange(8, 20));
        assert(secure.subrange(8, 20) =~= host);
        assert(stands_at(base, host, 8));
    }
    let turn = attempt % 8;
    lemma_replaced_without_occurrence(base, host, host_at(turn));
    lemma_replaced_without_occurrence(base, plain, "https://"@ + host_at(turn));
}

/// Whether `pattern` stands in `text` at index `at`.
fn occurs_at(text: &Vec<char>, at: usize, pattern: &Vec<char>) -> (found: bool)
    requires
        at <= text@.len(),
    ensures
        found == stands_at(text@, pattern@, at as int),
{
    if text.len() - at < pattern.len() {
        return false;
    }
    let ghost window = text@.subrange(at as int, at + pattern@.len());
    let mut k: usize = 0;
    while k < pattern.len()
        invariant
            k <= pattern.len(),
            at + pattern.len() <= text.len(),
            window == text@.subrange(at as int, at + pattern@.len()),
            window.take(k as int) == pattern@.take(k as int),
        decreases pattern@.len() - k,
    {
        if text[at + k] != pattern[k] {
            return false;
        }
        k += 1;
    }
    assert(window.take(k as int) =~= window);
    assert(pattern@.take(k as int) =~= pattern@);
    true
}

/// `text` with every occurrence of `from` replaced by `to`.
fn replace(text: &str, from: &str, to: &str) -> (out: String)
    requires
        from@.len() > 0,
    ensures
        out@ == replaced(text@, from@, to@),
{
    let hay = chars_of(text);
    let pattern = chars_of(from);
    let fill = chars_of(to);
    let mut out: Vec<char> = Vec::new();
    let mut i: usize = 0;
    assert(hay@.skip(0) =~= hay@);
    while i < hay.len()
        invariant
            i <= hay@.len(),
            pattern@.len() > 0,
            replaced(hay@, pattern@, fill@) == out@ + replaced(
                hay@.skip(i as int),
                pattern@,
                fill@,
            ),
        decreases hay@.len() - i,
    {
        let ghost rest = hay@.skip(i as int);
        assert(rest.len() >= pattern@.len() ==> rest.take(pattern@.len() as int) =~= hay@.subrange(
            i as int,
            i + pattern@.len(),
        ));
        if occurs_at(&hay, i, &pattern) {
            let mut k: usize = 0;
            let ghost kept = out@;
            while k < fill.len()
                invariant
                    k <= fill@.len(),
                    out@ == kept + fill@.take(k as int),
                decreases fill@.len() - k,
            {
                out.push(fill[k]);
                k += 1;
            }
            assert(rest.skip(pattern@.len() as int) =~= hay@.skip(i + pattern@.len()));
            i += pattern.len();
        } else {
            out.push(hay[i]);
            assert(rest.skip(1) =~= hay@.skip(i + 1));
            i += 1;
        }
    }
    string_of(&out)
}

/// The characters of `chars` from index `from` on, as a string.
fn tail_of(chars: &Vec<char>, from: usize) -> (out: String)
    requires
        from <= chars@.len(),
    ensures
        out@ == chars@.skip(from as int),
{
    let mut out = String::new();
    let mut i: usize = from;
    while i < chars.len()
        invariant
            from <= i <= chars@.len(),
            out@ == chars@.subrange(from as int, i as int),
        decreases chars@.len() - i,
    {
        out.push(chars[i]);
        i += 1;
    }
    out
}

/// The host at place `turn` of the ring.
fn host_for(turn: u32) -> (host: &'static str)
    ensures
        host@ == host_at(turn as nat),
{
    if turn == 1 || turn == 2 {
        "i3.hdslb.com"
    } else if turn == 3 || turn == 4 {
        "i2.hdslb.com"
    } else if turn == 5 || turn == 6 {
        "i1.hdslb.com"
    } else {
        "i0.hdslb.com"
    }
}

/// The address to try at `attempt`, for a block announced under `base`.
pub fn candidate_url(base: &str, attempt: u32) -> (url: String)
    ensures
        url@ == mirror_url(base@, attempt as nat),
{
    proof {
        reveal_strlit("http://");
        reveal_strlit("https://");
        reveal_strlit("i0.hdslb.com");
        reveal_strlit("http://i0.hdslb.com");
        reveal_strlit("https://i0.hdslb.com");
    }
    let turn: u32 = attempt % RING;
    if turn == 0 {
        return base.to_owned();
    }
    let given = chars_of(base);
    let plain = chars_of("http://i0.hdslb.com");
    let secure = chars_of("https://i0.hdslb.com");
    let secures: bool = turn % 2 == 1;
    if occurs_at(&given, 0, &plain) {
        let mut url = if secures {
            "https://".to_owned()
        } else {
            "http://".to_owned()
        };
        url.append(host_for(turn));
        url.append(tail_of(&given, plain.len()).as_str());
        url
    } else if occurs_at(&given, 0, &secure) {
        let mut url = "https://".to_owned();
        url.append(host_for(turn));
        url.append(tail_of(&given, secure.len()).as_str());
        url
    } else if turn == 7 {
        replace(base, "http://", "https://")
    } else if secures {
        let mut to = "https://".to_owned();
        to.append(host_for(turn));
        replace(base, "http://i0.hdslb.com", to.as_str())
    } else {
        replace(base, "i0.hdslb.com", host_for(turn))
    }
}

} // verus!
