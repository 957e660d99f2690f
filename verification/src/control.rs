//! Shared control-channel state: named integer properties and the palette,
//! and the commands the control channel hands to the render loop.
use vstd::prelude::*;

use crate::palette::{Palette, PaletteType};
use crate::text::str_eq;
use vstd::string::StringExecFns;

verus! {

/// A request the control channel hands to the render loop.
pub enum ControlCommand {
    /// Start playing a video source on the given category.
    PlayVideo { pty: PaletteType, url: String },
    /// Reload the seasonal prop model.
    ReloadPumpkin,
}

/// The value of property `k` in a property list: the first binding's value,
/// or zero where none is bound.
pub open spec fn spec_props_get(props: Seq<(String, i64)>, k: Seq<char>) -> i64
    decreases props.len(),
{
    if props.len() == 0 {
        0
    } else if props[0].0@ == k {
        props[0].1
    } else {
        spec_props_get(props.drop_first(), k)
    }
}

/// State shared between the control channel and the render loop: toggleable
/// integer properties and the palette configuration.
pub struct ControlState {
    pub properties: Vec<(String, i64)>,
    pub palette: Palette,
}

impl ControlState {
    /// Each property name is bound at most once and the palette is
    /// well-formed.
    pub open spec fn wf(&self) -> bool {
        &&& self.palette.wf()
        &&& forall|i: int, j: int|
            #![trigger self.properties@[i], self.properties@[j]]
            0 <= i < j < self.properties@.len() ==> self.properties@[i].0@
                != self.properties@[j].0@
    }

    /// Fresh state: no properties set, the default palette.
    pub fn new() -> (r: ControlState)
        ensures
            r.wf(),
            r.properties@.len() == 0,
            r.palette.default_word@ == "lcolonq"@,
            forall|k: Seq<char>| spec_props_get(r.properties@, k) == 0,
    {
        ControlState { properties: Vec::new(), palette: Palette::new() }
    }

    /// The value of a property, zero when unset.
    pub fn get(&self, prop: &str) -> (r: i64)
        ensures
            r == spec_props_get(self.properties@, prop@),
    {
        let n = self.properties.len();
        let mut i: usize = 0;
        proof {
            assert(self.properties@.skip(0) =~= self.properties@);
        }
        while i < n
            invariant
                i <= n,
                n == self.properties@.len(),
                spec_props_get(self.properties@, prop@) == spec_props_get(
                    self.properties@.skip(i as int),
                    prop@,
                ),
            decreases n - i,
        {
            let hit = str_eq(self.properties[i].0.as_str(), prop);
            proof {
                assert(self.properties@.skip(i as int)[0] == self.properties@[i as int]);
                assert(self.properties@.skip(i as int).drop_first() =~= self.properties@.skip(
                    i + 1,
                ));
            }
            if hit {
                return self.properties[i].1;
            }
            i = i + 1;
        }
        0
    }

    /// Whether a property is set to a nonzero value.
    pub fn is(&self, prop: &str) -> (r: bool)
        ensures
            r == (spec_props_get(self.properties@, prop@) != 0),
    {
        self.get(prop) != 0
    }

    /// Bind a property to a value, replacing any existing binding.
    pub fn set(&mut self, prop: &str, v: i64)
        requires
            old(self).wf(),
        ensures
            final(self).wf(),
            final(self).palette == old(self).palette,
            spec_props_get(final(self).properties@, prop@) == v,
            forall|k: Seq<char>|
                k != prop@ ==> spec_props_get(final(self).properties@, k) == spec_props_get(
                    old(self).properties@,
                    k,
                ),
    {
        let n = self.properties.len();
        let mut i: usize = 0;
        while i < n
            invariant
                i <= n,
                n == self.properties@.len(),
                self == old(self),
                old(self).wf(),
                forall|j: int|
                    0 <= j < i ==> (#[trigger] self.properties@[j]).0@ != prop@,
            decreases n - i,
        {
            let hit = str_eq(self.properties[i].0.as_str(), prop);
            if hit {
                let key = String::from_str(prop);
                self.properties.set(i, (key, v));
                proof {
                    lemma_props_get_update(old(self).properties@, i as int, (key, v), prop@);
                    assert(forall|k: Seq<char>|
                        k != prop@ ==> spec_props_get(self.properties@, k) == spec_props_get(
                            old(self).properties@,
                            k,
                        ) && spec_props_get(self.properties@, prop@) == v) by {
                        assert forall|k: Seq<char>| true implies (k != prop@ ==> spec_props_get(
                            self.properties@,
                            k,
                        ) == spec_props_get(old(self).properties@, k)) by {
                            lemma_props_get_update(
                                old(self).properties@,
                                i as int,
                                (key, v),
                                k,
                            );
                        }
                    }
                    assert(forall|j: int|
                        0 <= j < self.properties@.len() ==> (#[trigger] self.properties@[j]).0@
                            == old(self).properties@[j].0@);
                    assert forall|a: int, b: int|
                        0 <= a < b < self.properties@.len() implies self.properties@[a].0@
                        != self.properties@[b].0@ by {
                        assert(self.properties@[a].0@ == old(self).properties@[a].0@);
                        assert(self.properties@[b].0@ == old(self).properties@[b].0@);
                        assert(old(self).properties@[a].0@ != old(self).properties@[b].0@);
                    }
                }
                return ;
            }
            i = i + 1;
        }
        let key = String::from_str(prop);
        self.properties.push((key, v));
        proof {
            assert forall|k: Seq<char>| true implies (if k == prop@ {
                spec_props_get(self.properties@, k) == v
            } else {
                spec_props_get(self.properties@, k) == spec_props_get(old(self).properties@, k)
            }) by {
                lemma_props_get_push(old(self).properties@, (key, v), k);
            }
        }
    }
}

proof fn lemma_props_get_update(props: Seq<(String, i64)>, i: int, kv: (String, i64), k: Seq<char>)
    requires
        0 <= i < props.len(),
        kv.0@ == props[i].0@,
        forall|j: int| 0 <= j < i ==> (#[trigger] props[j]).0@ != kv.0@,
    ensures
        k == kv.0@ ==> spec_props_get(props.update(i, kv), k) == kv.1,
        k != kv.0@ ==> spec_props_get(props.update(i, kv), k) == spec_props_get(props, k),
    decreases i,
{
    let u = props.update(i, kv);
    if i == 0 {
        assert(u[0] == kv);
        assert(u.drop_first() =~= props.drop_first());
    } else {
        assert(u[0] == props[0]);
        assert(u.drop_first() =~= props.drop_first().update(i - 1, kv));
        assert(forall|j: int|
            0 <= j < i - 1 ==> (#[trigger] props.drop_first()[j]).0@ != kv.0@);
        lemma_props_get_update(props.drop_first(), i - 1, kv, k);
    }
}

proof fn lemma_props_get_push(props: Seq<(String, i64)>, kv: (String, i64), k: Seq<char>)
    requires
        forall|j: int| 0 <= j < props.len() ==> (#[trigger] props[j]).0@ != kv.0@,
    ensures
        k == kv.0@ ==> spec_props_get(props.push(kv), k) == kv.1,
        k != kv.0@ ==> spec_props_get(props.push(kv), k) == spec_props_get(props, k),
    decreases props.len(),
{
    let u = props.push(kv);
    if props.len() == 0 {
        assert(u[0] == kv);
        assert(u.drop_first() =~= Seq::<(String, i64)>::empty());
        assert(spec_props_get(u.drop_first(), k) == 0);
        assert(spec_props_get(props, k) == 0);
    } else {
        assert(u[0] == props[0]);
        assert(u.drop_first() =~= props.drop_first().push(kv));
        assert(forall|j: int|
            0 <= j < props.drop_first().len() ==> (#[trigger] props.drop_first()[j]).0@
                != kv.0@);
        lemma_props_get_push(props.drop_first(), kv, k);
        if k == props[0].0@ {
            assert(spec_props_get(u, k) == props[0].1);
            assert(spec_props_get(props, k) == props[0].1);
        } else {
            assert(spec_props_get(u, k) == spec_props_get(u.drop_first(), k));
            assert(spec_props_get(props, k) == spec_props_get(props.drop_first(), k));
        }
    }
}

} // verus!
