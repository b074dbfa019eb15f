use vstd::prelude::*;
use crate::interner::{interns, lookup};
use crate::istr::IStr;

verus! {

/// Interning the same string twice in a row returns the same handle, and the
/// second call adds nothing.
pub proof fn law_repeat_intern(
    m0: Map<Seq<char>, IStr>,
    s: Seq<char>,
    h1: IStr,
    m1: Map<Seq<char>, IStr>,
    h2: IStr,
    m2: Map<Seq<char>, IStr>,
)
    requires
        interns(m0, s, h1, m1),
        interns(m1, s, h2, m2),
    ensures
        h1 == h2,
        m2 == m1,
{
    assert(m1.insert(s, h2) =~= m1);
}

/// Interning any string keeps every handle made before, under its own text.
pub proof fn law_handles_persist(
    m0: Map<Seq<char>, IStr>,
    t: Seq<char>,
    g: IStr,
    m1: Map<Seq<char>, IStr>,
)
    requires
        interns(m0, t, g, m1),
    ensures
        forall|k: Seq<char>| #[trigger] m0.contains_key(k) ==> m1.contains_key(k) && m1[k] == m0[k],
{
}

/// Two different strings never share a handle.
pub proof fn law_distinct(
    m0: Map<Seq<char>, IStr>,
    s: Seq<char>,
    h1: IStr,
    m1: Map<Seq<char>, IStr>,
    t: Seq<char>,
    h2: IStr,
    m2: Map<Seq<char>, IStr>,
)
    requires
        interns(m0, s, h1, m1),
        interns(m1, t, h2, m2),
        s != t,
    ensures
        h1 != h2,
{
}

/// After a run of `intern` calls on a new interner (call `i` interns `ss[i]`
/// and returns `hs[i]`, turning the handles `ms[i]` into `ms[i + 1]`), a lookup
/// of `s` finds a handle exactly when some call interned `s`, and that handle
/// is the one every such call returned.
pub proof fn law_lookup_after_interns(
    ms: Seq<Map<Seq<char>, IStr>>,
    ss: Seq<Seq<char>>,
    hs: Seq<IStr>,
    s: Seq<char>,
)
    requires
        ms.len() == ss.len() + 1,
        hs.len() == ss.len(),
        ms[0] == Map::<Seq<char>, IStr>::empty(),
        forall|i: int| 0 <= i < ss.len() ==> interns(#[trigger] ms[i], ss[i], hs[i], ms[i + 1]),
    ensures
        lookup(ms[ss.len() as int], s) is Some <==> ss.contains(s),
        forall|i: int|
            0 <= i < ss.len() && #[trigger] ss[i] == s ==> lookup(ms[ss.len() as int], s) == Some(
                hs[i],
            ),
    decreases ss.len(),
{
    let n = ss.len() as int;
    if n > 0 {
        let ms1 = ms.drop_last();
        let ss1 = ss.drop_last();
        let hs1 = hs.drop_last();
        assert forall|i: int| 0 <= i < ss1.len() implies interns(
            #[trigger] ms1[i],
            ss1[i],
            hs1[i],
            ms1[i + 1],
        ) by {
            assert(interns(ms[i], ss[i], hs[i], ms[i + 1]));
        }
        law_lookup_after_interns(ms1, ss1, hs1, s);
        assert(interns(ms[n - 1], ss[n - 1], hs[n - 1], ms[n]));
        assert(ss.contains(s) <==> (ss1.contains(s) || ss[n - 1] == s)) by {
            if ss.contains(s) {
                let j = choose|j: int| 0 <= j < ss.len() && ss[j] == s;
                if j < n - 1 {
                    assert(ss1[j] == s);
                }
            }
            if ss1.contains(s) {
                let j = choose|j: int| 0 <= j < ss1.len() && ss1[j] == s;
                assert(ss[j] == s);
            }
        }
        assert forall|i: int| 0 <= i < ss.len() && #[trigger] ss[i] == s implies lookup(
            ms[n],
            s,
        ) == Some(hs[i]) by {
            if i < n - 1 {
                assert(ss1[i] == s);
                assert(lookup(ms1[n - 1], s) == Some(hs1[i]));
            }
        }
    }
}

} // verus!
