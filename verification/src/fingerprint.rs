//! Change detection over the ordered session list. The fingerprint is a
//! string derived from each view's identity and status fields, in registry
//! read order; the menu is rebuilt exactly when it changes.

use vstd::prelude::*;

use crate::types::{opt_str, SessionInfo};

verus! {

/// The printed form of a boolean inside a fingerprint.
pub open spec fn bool_str(b: bool) -> Seq<char> {
    if b {
        "true"@
    } else {
        "false"@
    }
}

/// The fingerprint segment one session contributes:
/// `<sessionId>:<healthy>:<switched>:<provider>:<model>|`.
pub open spec fn seg(s: SessionInfo) -> Seq<char> {
    s.session_id@ + ":"@ + bool_str(s.healthy) + ":"@ + bool_str(s.switched) + ":"@ + opt_str(
        s.provider,
    ) + ":"@ + opt_str(s.model) + "|"@
}

/// The fingerprint of an ordered session list: its segments concatenated.
pub open spec fn fingerprint_spec(ss: Seq<SessionInfo>) -> Seq<char>
    decreases ss.len(),
{
    if ss.len() == 0 {
        Seq::empty()
    } else {
        fingerprint_spec(ss.drop_last()) + seg(ss.last())
    }
}

/// Append the fingerprint segment of one session to `fp`.
#[verifier::rlimit(30)]
fn append_seg(fp: &mut String, s: &SessionInfo)
    ensures
        final(fp)@ == old(fp)@ + seg(*s),
{
    fp.append(s.session_id.as_str());
        fp.append(":");
        if s.healthy {
            fp.append("true");
        } else {
            fp.append("false");
        }
        fp.append(":");
        if s.switched {
            fp.append("true");
        } else {
            fp.append("false");
        }
        fp.append(":");
        match &s.provider {
            Option::Some(p) => fp.append(p.as_str()),
            Option::None => {},
        }
        fp.append(":");
        match &s.model {
            Option::Some(m) => fp.append(m.as_str()),
            Option::None => {},
        }
    fp.append("|");
    proof {
        assert(fp@ =~= old(fp)@ + seg(*s));
    }
}

/// Compute the fingerprint of `sessions` in their given order.
pub fn compute_fingerprint(sessions: &Vec<SessionInfo>) -> (r: String)
    ensures
        r@ == fingerprint_spec(sessions@),
{
    let mut fp = String::new();
    let mut i: usize = 0;
    while i < sessions.len()
        invariant
            i <= sessions.len(),
            fp@ == fingerprint_spec(sessions@.take(i as int)),
        decreases sessions.len() - i,
    {
        append_seg(&mut fp, &sessions[i]);
        proof {
            assert(sessions@.take(i + 1).drop_last() =~= sessions@.take(i as int));
            assert(sessions@.take(i + 1).last() == sessions@[i as int]);
        }
        i += 1;
    }
    proof {
        assert(sessions@.take(sessions@.len() as int) =~= sessions@);
    }
    fp
}

/// Two views differ in exactly one fingerprinted field: the session
/// identifier, the healthy flag, the switched flag, or the characters the
/// provider or model contribute.
pub open spec fn one_fingerprint_field_changed(x: SessionInfo, y: SessionInfo) -> bool {
    let id_eq = x.session_id@ == y.session_id@;
    let h_eq = x.healthy == y.healthy;
    let sw_eq = x.switched == y.switched;
    let p_eq = opt_str(x.provider) == opt_str(y.provider);
    let m_eq = opt_str(x.model) == opt_str(y.model);
    ||| (!id_eq && h_eq && sw_eq && p_eq && m_eq)
    ||| (id_eq && !h_eq && sw_eq && p_eq && m_eq)
    ||| (id_eq && h_eq && !sw_eq && p_eq && m_eq)
    ||| (id_eq && h_eq && sw_eq && !p_eq && m_eq)
    ||| (id_eq && h_eq && sw_eq && p_eq && !m_eq)
}

/// Replacing an inner piece of a concatenation by a different piece changes
/// the whole, when what stands before and after is kept.
proof fn lemma_mid_change(p: Seq<char>, a: Seq<char>, s: Seq<char>, b: Seq<char>)
    requires
        a != b,
    ensures
        p + a + s != p + b + s,
{
    if a.len() == b.len() {
        if p + a + s == p + b + s {
            assert forall|i: int| 0 <= i < a.len() implies a[i] == b[i] by {
                assert((p + a + s)[p.len() + i] == a[i]);
                assert((p + b + s)[p.len() + i] == b[i]);
            }
            assert(a =~= b);
        }
    } else {
        assert((p + a + s).len() != (p + b + s).len());
    }
}

/// Changing one fingerprinted field of a view changes its segment.
#[verifier::rlimit(60)]
pub proof fn lemma_seg_sensitive(x: SessionInfo, y: SessionInfo)
    requires
        one_fingerprint_field_changed(x, y),
    ensures
        seg(x) != seg(y),
{
    reveal_strlit("true");
    reveal_strlit("false");
    reveal_strlit(":");
    reveal_strlit("|");
    let c = ":"@;
    let bar = "|"@;
    if x.session_id@ != y.session_id@ {
        let tail = c + bool_str(x.healthy) + c + bool_str(x.switched) + c + opt_str(x.provider)
            + c + opt_str(x.model) + bar;
        assert(seg(x) =~= Seq::empty() + x.session_id@ + tail);
        assert(seg(y) =~= Seq::empty() + y.session_id@ + tail);
        lemma_mid_change(Seq::empty(), x.session_id@, tail, y.session_id@);
    } else if x.healthy != y.healthy || x.switched != y.switched {
        assert(bool_str(true).len() == 4);
        assert(bool_str(false).len() == 5);
        assert(seg(x).len() == x.session_id@.len() + 1 + bool_str(x.healthy).len() + 1 + bool_str(
            x.switched,
        ).len() + 1 + opt_str(x.provider).len() + 1 + opt_str(x.model).len() + 1);
        assert(seg(y).len() == y.session_id@.len() + 1 + bool_str(y.healthy).len() + 1 + bool_str(
            y.switched,
        ).len() + 1 + opt_str(y.provider).len() + 1 + opt_str(y.model).len() + 1);
        assert(seg(x).len() != seg(y).len());
    } else if opt_str(x.provider) != opt_str(y.provider) {
        let pre = x.session_id@ + c + bool_str(x.healthy) + c + bool_str(x.switched) + c;
        let suf = c + opt_str(x.model) + bar;
        assert(seg(x) =~= pre + opt_str(x.provider) + suf);
        assert(seg(y) =~= pre + opt_str(y.provider) + suf);
        lemma_mid_change(pre, opt_str(x.provider), suf, opt_str(y.provider));
    } else {
        let pre = x.session_id@ + c + bool_str(x.healthy) + c + bool_str(x.switched) + c + opt_str(
            x.provider,
        ) + c;
        assert(seg(x) =~= pre + opt_str(x.model) + bar);
        assert(seg(y) =~= pre + opt_str(y.model) + bar);
        lemma_mid_change(pre, opt_str(x.model), bar, opt_str(y.model));
    }
}

/// Lists whose views contribute the same segments fingerprint alike.
proof fn lemma_fp_congruent(a: Seq<SessionInfo>, b: Seq<SessionInfo>)
    requires
        a.len() == b.len(),
        forall|j: int| 0 <= j < a.len() ==> seg(#[trigger] a[j]) == seg(b[j]),
    ensures
        fingerprint_spec(a) == fingerprint_spec(b),
    decreases a.len(),
{
    if a.len() > 0 {
        assert forall|j: int| 0 <= j < a.drop_last().len() implies seg(
            #[trigger] a.drop_last()[j],
        ) == seg(b.drop_last()[j]) by {
            assert(a.drop_last()[j] == a[j]);
            assert(b.drop_last()[j] == b[j]);
        }
        lemma_fp_congruent(a.drop_last(), b.drop_last());
        assert(seg(a.last()) == seg(b.last()));
    }
}

/// Changing the segment of one entry, all other segments kept, changes the
/// fingerprint.
proof fn lemma_fingerprint_seg_change(a: Seq<SessionInfo>, b: Seq<SessionInfo>, i: int)
    requires
        a.len() == b.len(),
        0 <= i < a.len(),
        forall|j: int| 0 <= j < a.len() && j != i ==> seg(#[trigger] a[j]) == seg(b[j]),
        seg(a[i]) != seg(b[i]),
    ensures
        fingerprint_spec(a) != fingerprint_spec(b),
    decreases a.len(),
{
    let fa = fingerprint_spec(a.drop_last());
    let fb = fingerprint_spec(b.drop_last());
    if i == a.len() - 1 {
        assert forall|j: int| 0 <= j < a.drop_last().len() implies seg(
            #[trigger] a.drop_last()[j],
        ) == seg(b.drop_last()[j]) by {
            assert(a.drop_last()[j] == a[j]);
            assert(b.drop_last()[j] == b[j]);
        }
        lemma_fp_congruent(a.drop_last(), b.drop_last());
        lemma_mid_change(fa, seg(a[i]), Seq::empty(), seg(b[i]));
        assert(fingerprint_spec(a) =~= fa + seg(a[i]) + Seq::empty());
        assert(fingerprint_spec(b) =~= fb + seg(b[i]) + Seq::empty());
    } else {
        assert forall|j: int| 0 <= j < a.drop_last().len() && j != i implies seg(
            #[trigger] a.drop_last()[j],
        ) == seg(b.drop_last()[j]) by {
            assert(a.drop_last()[j] == a[j]);
            assert(b.drop_last()[j] == b[j]);
        }
        assert(a.drop_last()[i] == a[i]);
        assert(b.drop_last()[i] == b[i]);
        lemma_fingerprint_seg_change(a.drop_last(), b.drop_last(), i);
        assert(seg(a.last()) == seg(b.last()));
        if fingerprint_spec(a) == fingerprint_spec(b) {
            if fa.len() == fb.len() {
                assert(fa =~= fb) by {
                    assert forall|k: int| 0 <= k < fa.len() implies fa[k] == fb[k] by {
                        assert((fa + seg(a.last()))[k] == fa[k]);
                        assert((fb + seg(b.last()))[k] == fb[k]);
                    }
                }
            } else {
                assert(fingerprint_spec(a).len() != fingerprint_spec(b).len());
            }
        }
    }
}

/// Fingerprint sensitivity: two session lists that agree everywhere except
/// in one fingerprinted field of one entry never share a fingerprint.
/// (Determinism is already the fingerprint being a function of the list.)
pub proof fn lemma_fingerprint_sensitive(a: Seq<SessionInfo>, b: Seq<SessionInfo>, i: int)
    requires
        a.len() == b.len(),
        0 <= i < a.len(),
        forall|j: int| 0 <= j < a.len() && j != i ==> #[trigger] a[j] == b[j],
        one_fingerprint_field_changed(a[i], b[i]),
    ensures
        fingerprint_spec(a) != fingerprint_spec(b),
{
    lemma_seg_sensitive(a[i], b[i]);
    lemma_fingerprint_seg_change(a, b, i);
}

} // verus!
