//! Small string helpers shared by the lowering stage, and verified cloning
//! helpers for the compound values the graph carries.

use vstd::prelude::*;
use vstd::string::StringExecFns;

verus! {

/// A vector's deep view is the element-by-element sequence of deep views.
pub proof fn lemma_vec_deep_view<T: DeepView>(v: &Vec<T>)
    ensures
        v.deep_view().len() == v@.len(),
        forall|j: int| 0 <= j < v@.len() ==> v.deep_view()[j] == #[trigger] v@[j].deep_view(),
{
    assert(v.deep_view().len() == v@.len());
    assert forall|j: int| 0 <= j < v@.len() implies v.deep_view()[j] == #[trigger] v@[
        j
    ].deep_view() by {
        assert(v.deep_view()[j] == v@[j].deep_view());
    }
}

/// One more element of a take is a push of the element at the boundary.
pub proof fn lemma_take_one_more<T>(s: Seq<T>, j: int)
    requires
        0 <= j < s.len(),
    ensures
        s.take(j + 1) == s.take(j).push(s[j]),
{
    assert(s.take(j + 1) =~= s.take(j).push(s[j]));
}

/// Pushes an element, tracking the vector's deep view.
pub fn push_elem<T: DeepView>(v: &mut Vec<T>, x: T)
    ensures
        final(v)@ == old(v)@.push(x),
        final(v).deep_view() == old(v).deep_view().push(x.deep_view()),
{
    v.push(x);
    proof {
        assert(v.deep_view() =~= old(v).deep_view().push(x.deep_view())) by {
            assert forall|j: int| 0 <= j < v@.len() implies v.deep_view()[j] == old(
                v,
            ).deep_view().push(x.deep_view())[j] by {
                if j < v@.len() - 1 {
                    assert(v@[j] == old(v)@[j]);
                } else {
                    assert(v@[j] == x);
                }
            }
        }
    }
}

/// Pops the last element, tracking the vector's deep view.
pub fn pop_elem<T: DeepView>(v: &mut Vec<T>) -> (r: T)
    requires
        old(v)@.len() > 0,
    ensures
        r.deep_view() == old(v).deep_view().last(),
        final(v)@ == old(v)@.drop_last(),
        final(v).deep_view() == old(v).deep_view().drop_last(),
{
    proof {
        lemma_vec_deep_view(v);
    }
    let x = v.pop().unwrap();
    proof {
        lemma_vec_deep_view(v);
        assert(v@ =~= old(v)@.drop_last());
        assert(v.deep_view() =~= old(v).deep_view().drop_last()) by {
            assert forall|j: int| 0 <= j < v@.len() implies v.deep_view()[j] == old(
                v,
            ).deep_view().drop_last()[j] by {
                assert(v@[j] == old(v)@[j]);
            }
        }
    }
    x
}

/// Removes the first element, tracking the vector's deep view.
pub fn remove_first<T: DeepView>(v: &mut Vec<T>) -> (r: T)
    requires
        old(v)@.len() > 0,
    ensures
        r.deep_view() == old(v).deep_view()[0],
        final(v)@ == old(v)@.drop_first(),
        final(v).deep_view() == old(v).deep_view().drop_first(),
{
    proof {
        lemma_vec_deep_view(v);
    }
    let x = v.remove(0);
    proof {
        lemma_vec_deep_view(v);
        assert(v@ =~= old(v)@.drop_first());
        assert(v.deep_view() =~= old(v).deep_view().drop_first()) by {
            assert forall|j: int| 0 <= j < v@.len() implies v.deep_view()[j] == old(
                v,
            ).deep_view().drop_first()[j] by {
                assert(v@[j] == old(v)@[j + 1]);
            }
        }
    }
    x
}

/// Relies on std's `String::push`: appends exactly one character.
#[verifier::external_body]
fn push_char(s: &mut String, c: char)
    ensures
        final(s)@ == old(s)@.push(c),
{
    s.push(c);
}

/// The text with every dash replaced by an underscore, as crate names are
/// derived from package and target names.
pub open spec fn underscored(s: Seq<char>) -> Seq<char> {
    Seq::new(s.len(), |i: int| if s[i] == '-' { '_' } else { s[i] })
}

/// Replaces every dash with an underscore.
pub fn underscore_name(s: &str) -> (r: String)
    ensures
        r@ == underscored(s@),
{
    let n = s.unicode_len();
    let mut out = String::new();
    let mut i: usize = 0;
    while i < n
        invariant
            n == s@.len(),
            0 <= i <= n,
            out@ == underscored(s@).take(i as int),
        decreases n - i,
    {
        let c = s.get_char(i);
        if c == '-' {
            push_char(&mut out, '_');
        } else {
            push_char(&mut out, c);
        }
        i = i + 1;
        assert(out@ =~= underscored(s@).take(i as int));
    }
    assert(out@ =~= underscored(s@));
    out
}

/// The cfg entry derived from one enabled feature.
pub open spec fn feature_cfg(f: Seq<char>) -> Seq<char> {
    "feature=\""@ + f + "\""@
}

/// Formats one enabled feature as a `feature="<name>"` cfg entry.
pub fn feature_cfg_string(f: &String) -> (r: String)
    ensures
        r@ == feature_cfg(f@),
{
    String::from_str("feature=\"").concat(f.as_str()).concat("\"")
}

/// Clones an optional string.
pub fn clone_opt_string(o: &Option<String>) -> (r: Option<String>)
    ensures
        r.deep_view() == o.deep_view(),
{
    match o {
        Some(s) => Some(s.clone()),
        None => None,
    }
}

/// The spec-level shape of an [`EnvVar`].
pub ghost struct EnvVarV {
    pub name: Seq<char>,
    pub value: Seq<char>,
}

/// One environment variable captured from a build-script run.
#[derive(Debug, PartialEq)]
pub struct EnvVar {
    pub name: String,
    pub value: String,
}

impl DeepView for EnvVar {
    type V = EnvVarV;

    open spec fn deep_view(&self) -> EnvVarV {
        EnvVarV { name: self.name@, value: self.value@ }
    }
}

impl EnvVar {
    /// Packs a name and a value into an environment variable.
    pub fn new(name: String, value: String) -> (r: EnvVar)
        ensures
            r.deep_view() == (EnvVarV { name: name@, value: value@ }),
    {
        EnvVar { name, value }
    }
}

impl Clone for EnvVar {
    /// The clone is the same variable.
    fn clone(&self) -> (r: Self)
        ensures
            r.deep_view() == self.deep_view(),
    {
        EnvVar { name: self.name.clone(), value: self.value.clone() }
    }
}

} // verus!

