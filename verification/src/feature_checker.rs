//! Checks of the features that an embedder has enabled.
use vstd::prelude::*;
use crate::text::str_eq;

verus! {

/// The set of enabled features, and what to do when an API asks for a
/// feature that is not enabled.
pub struct FeatureChecker<E: Fn(&str, &str)> {
    features: Vec<&'static str>,
    exit_cb: E,
}

impl<E: Fn(&str, &str)> FeatureChecker<E> {
    /// The names of the enabled features.
    pub closed spec fn enabled(&self) -> Set<Seq<char>> {
        self.features@.map_values(|f: &'static str| f@).to_set()
    }

    /// The callback for features that are not enabled.
    pub closed spec fn spec_exit_cb(&self) -> E {
        self.exit_cb
    }

    /// A checker with no feature enabled.
    pub fn new(exit_cb: E) -> (r: Self)
        ensures
            r.enabled() == Set::<Seq<char>>::empty(),
            r.spec_exit_cb() == exit_cb,
    {
        let r = FeatureChecker { features: Vec::new(), exit_cb };
        assert(r.enabled() =~= Set::<Seq<char>>::empty());
        r
    }

    /// Enables `feature`, which must not be enabled yet.
    pub fn enable_feature(&mut self, feature: &'static str)
        requires
            !old(self).enabled().contains(feature@),
        ensures
            final(self).enabled() == old(self).enabled().insert(feature@),
            final(self).spec_exit_cb() == old(self).spec_exit_cb(),
    {
        let ghost before = self.features@;
        self.features.push(feature);
        proof {
            assert(self.features@ =~= before.push(feature));
            assert(self.features@.map_values(|f: &'static str| f@) =~= before.map_values(
                |f: &'static str| f@,
            ).push(feature@));
            assert(self.enabled() =~= before.map_values(|f: &'static str| f@).to_set().insert(
                feature@,
            )) by {
                let a = before.map_values(|f: &'static str| f@);
                assert forall|x: Seq<char>| a.push(feature@).contains(x) <==> a.contains(x) || x
                    == feature@ by {
                    if a.push(feature@).contains(x) {
                        let k = choose|k: int| 0 <= k < a.push(feature@).len() && a.push(feature@)[k] == x;
                        if k < a.len() {
                            assert(a[k] == x);
                        }
                    }
                    if a.contains(x) {
                        let k = choose|k: int| 0 <= k < a.len() && a[k] == x;
                        assert(a.push(feature@)[k] == x);
                    }
                    if x == feature@ {
                        assert(a.push(feature@)[a.len() as int] == x);
                    }
                }
            }
        }
    }

    /// Replaces the callback for features that are not enabled.
    pub fn set_exit_cb(&mut self, cb: E)
        ensures
            final(self).enabled() == old(self).enabled(),
            final(self).spec_exit_cb() == cb,
    {
        self.exit_cb = cb;
    }

    /// Whether `feature` is enabled.
    pub fn check(&self, feature: &str) -> (r: bool)
        ensures
            r == self.enabled().contains(feature@),
    {
        let mut i: usize = 0;
        while i < self.features.len()
            invariant
                i <= self.features@.len(),
                forall|k: int| 0 <= k < i ==> self.features@[k]@ != feature@,
            decreases self.features.len() - i,
        {
            if str_eq(self.features[i], feature) {
                proof {
                    let a = self.features@.map_values(|f: &'static str| f@);
                    assert(a[i as int] == feature@);
                }
                return true;
            }
            i = i + 1;
        }
        proof {
            let a = self.features@.map_values(|f: &'static str| f@);
            if a.contains(feature@) {
                let k = choose|k: int| 0 <= k < a.len() && a[k] == feature@;
                assert(self.features@[k]@ == feature@);
            }
        }
        false
    }

    /// Calls the exit callback with `feature` and `api_name` unless
    /// `feature` is enabled: for a feature that is not, what the callback
    /// promises of that call holds afterwards.
    pub fn check_or_exit(&self, feature: &str, api_name: &str)
        requires
            !self.enabled().contains(feature@) ==> call_requires(
                self.spec_exit_cb(),
                (feature, api_name),
            ),
        ensures
            !self.enabled().contains(feature@) ==> call_ensures(
                self.spec_exit_cb(),
                (feature, api_name),
                (),
            ),
    {
        if !self.check(feature) {
            (self.exit_cb)(feature, api_name);
        }
    }
}

} // verus!
