//! Cross-server track identity by strong keys only: ISRC first, then the
//! MusicBrainz recording id. The canonical id is deterministic,
//! `{kind}:{value}`, so resolving the same identity twice gives the same id.

use vstd::prelude::*;
use crate::text::opt_str_view;

verus! {

pub const KIND_ISRC: &'static str = "isrc";

pub const KIND_MBID: &'static str = "mbid_recording";

pub open spec fn canonical_id_spec(kind: Seq<char>, value: Seq<char>) -> Seq<char> {
    kind + ":"@ + value
}

/// The deterministic canonical id of a strong identity.
pub fn canonical_id(kind: &str, value: &str) -> (r: String)
    ensures
        r@ == canonical_id_spec(kind@, value@),
{
    String::from_str(kind).concat(":").concat(value)
}

/// The strong key a track links by: a non-empty ISRC wins, else a
/// non-empty recording MBID, else none.
pub open spec fn strong_key_spec(isrc: Option<Seq<char>>, mbid: Option<Seq<char>>) -> Option<
    (Seq<char>, Seq<char>),
> {
    match isrc {
        Some(i) if i.len() > 0 => Some(("isrc"@, i)),
        _ => match mbid {
            Some(m) if m.len() > 0 => Some(("mbid_recording"@, m)),
            _ => None,
        },
    }
}

/// Pick the `(kind, value)` a track is linked by.
pub fn strong_key<'a>(isrc: Option<&'a str>, mbid_recording: Option<&'a str>) -> (r: Option<
    (&'static str, &'a str),
>)
    ensures
        match r {
            Some((k, v)) => strong_key_spec(opt_str_view(isrc), opt_str_view(mbid_recording))
                == Some((k@, v@)),
            None => strong_key_spec(opt_str_view(isrc), opt_str_view(mbid_recording)) is None,
        },
{
    if let Some(i) = isrc {
        if i.unicode_len() > 0 {
            return Some((KIND_ISRC, i));
        }
    }
    if let Some(m) = mbid_recording {
        if m.unicode_len() > 0 {
            return Some((KIND_MBID, m));
        }
    }
    None
}

/// The canonical id a track links to, if it carries a strong key.
pub fn link_target(isrc: Option<&str>, mbid_recording: Option<&str>) -> (r: Option<String>)
    ensures
        match strong_key_spec(opt_str_view(isrc), opt_str_view(mbid_recording)) {
            Some((k, v)) => r is Some && r->0@ == canonical_id_spec(k, v),
            None => r is None,
        },
{
    match strong_key(isrc, mbid_recording) {
        Some((k, v)) => Some(canonical_id(k, v)),
        None => None,
    }
}

/// Two identities of one kind share a canonical id only when their values
/// are equal, and ids of the two kinds never collide.
pub proof fn law_canonical_id_injective(k1: Seq<char>, v1: Seq<char>, k2: Seq<char>, v2: Seq<char>)
    requires
        k1 == "isrc"@ || k1 == "mbid_recording"@,
        k2 == "isrc"@ || k2 == "mbid_recording"@,
        canonical_id_spec(k1, v1) == canonical_id_spec(k2, v2),
    ensures
        k1 == k2,
        v1 == v2,
{
    reveal_strlit("isrc");
    reveal_strlit("mbid_recording");
    reveal_strlit(":");
    let a = k1 + ":"@ + v1;
    let b = k2 + ":"@ + v2;
    assert(a == b);
    assert(":"@.len() == 1);
    assert(a[0] == k1[0]);
    assert(b[0] == k2[0]);
    assert(k1 == k2);
    assert(a.len() == k1.len() + 1 + v1.len());
    assert(b.len() == k2.len() + 1 + v2.len());
    assert(v1.len() == v2.len());
    let n = k1.len() + 1;
    assert forall|i: int| 0 <= i < v1.len() implies v1[i] == v2[i] by {
        assert(a[n + i] == v1[i]);
        assert(b[n + i] == v2[i]);
    }
    assert(v1 =~= v2);
}

} // verus!
