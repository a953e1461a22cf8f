use vstd::prelude::*;
use crate::device::{Device, DeviceClass, DeviceRecord, Keyboard, Mouse};

verus! {

// A caller-facing container that sorts enumerated records into the typed
// per-class collections, so that mice and keyboards can be handed to
// class-specific consumers.

/// The positions, in order, of the records of one class.
pub open spec fn spec_class_indices(records: Seq<DeviceRecord>, class: DeviceClass) -> Seq<int>
    decreases records.len(),
{
    if records.len() == 0 {
        Seq::empty()
    } else {
        let rest = spec_class_indices(records.drop_last(), class);
        if records.last().device_class == class {
            rest.push(records.len() - 1)
        } else {
            rest
        }
    }
}

/// The typed device carries the record's identity.
pub open spec fn spec_device_from<D: Device>(r: DeviceRecord, d: D) -> bool {
    d.spec_handle() == r.handle && d.spec_product_name() == r.product_name@
}

proof fn lemma_class_indices_step(records: Seq<DeviceRecord>, class: DeviceClass, i: int)
    requires
        0 <= i < records.len(),
    ensures
        spec_class_indices(records.subrange(0, i + 1), class) == if records[i].device_class
            == class {
            spec_class_indices(records.subrange(0, i), class).push(i)
        } else {
            spec_class_indices(records.subrange(0, i), class)
        },
{
    let cur = records.subrange(0, i + 1);
    assert(cur.drop_last() =~= records.subrange(0, i));
    assert(cur.last() == records[i]);
}

/// The enumerated mice and keyboards of a host, sorted by class.
pub struct Devices {
    mice: Vec<Mouse>,
    keyboards: Vec<Keyboard>,
}

impl Devices {
    pub closed spec fn spec_mice(&self) -> Seq<Mouse> {
        self.mice@
    }

    pub closed spec fn spec_keyboards(&self) -> Seq<Keyboard> {
        self.keyboards@
    }

    /// A container with no devices.
    pub fn new() -> (d: Self)
        ensures
            d.spec_mice().len() == 0,
            d.spec_keyboards().len() == 0,
    {
        Devices { mice: Vec::new(), keyboards: Vec::new() }
    }

    /// Appends, keeping their order, a typed device for every mouse
    /// record and every keyboard record; records of other classes are
    /// not kept.
    pub fn add_all_devices(&mut self, records: &Vec<DeviceRecord>)
        ensures
            ({
                let midx = spec_class_indices(records@, DeviceClass::Mouse);
                let kidx = spec_class_indices(records@, DeviceClass::Keyboard);
                let m0 = old(self).spec_mice();
                let k0 = old(self).spec_keyboards();
                &&& final(self).spec_mice().len() == m0.len() + midx.len()
                &&& final(self).spec_keyboards().len() == k0.len() + kidx.len()
                &&& forall|k: int|
                    0 <= k < m0.len() ==> #[trigger] final(self).spec_mice()[k] == m0[k]
                &&& forall|k: int|
                    0 <= k < k0.len() ==> #[trigger] final(self).spec_keyboards()[k] == k0[k]
                &&& forall|k: int|
                    0 <= k < midx.len() ==> spec_device_from(
                        records@[midx[k]],
                        #[trigger] final(self).spec_mice()[m0.len() + k],
                    )
                &&& forall|k: int|
                    0 <= k < kidx.len() ==> spec_device_from(
                        records@[kidx[k]],
                        #[trigger] final(self).spec_keyboards()[k0.len() + k],
                    )
            }),
    {
        let ghost m0 = self.mice@;
        let ghost k0 = self.keyboards@;
        let mut i: usize = 0;
        while i < records.len()
            invariant
                0 <= i <= records@.len(),
                ({
                    let midx = spec_class_indices(
                        records@.subrange(0, i as int),
                        DeviceClass::Mouse,
                    );
                    let kidx = spec_class_indices(
                        records@.subrange(0, i as int),
                        DeviceClass::Keyboard,
                    );
                    &&& self.mice@.len() == m0.len() + midx.len()
                    &&& self.keyboards@.len() == k0.len() + kidx.len()
                    &&& forall|k: int| 0 <= k < m0.len() ==> #[trigger] self.mice@[k] == m0[k]
                    &&& forall|k: int|
                        0 <= k < k0.len() ==> #[trigger] self.keyboards@[k] == k0[k]
                    &&& forall|k: int|
                        0 <= k < midx.len() ==> 0 <= midx[k] < i && spec_device_from(
                            records@[midx[k]],
                            #[trigger] self.mice@[m0.len() + k],
                        )
                    &&& forall|k: int|
                        0 <= k < kidx.len() ==> 0 <= kidx[k] < i && spec_device_from(
                            records@[kidx[k]],
                            #[trigger] self.keyboards@[k0.len() + k],
                        )
                }),
            decreases records@.len() - i,
        {
            let ghost mice0 = self.mice@;
            let ghost keyboards0 = self.keyboards@;
            let ghost midx0 = spec_class_indices(records@.subrange(0, i as int), DeviceClass::Mouse);
            let ghost kidx0 = spec_class_indices(
                records@.subrange(0, i as int),
                DeviceClass::Keyboard,
            );
            let rec = &records[i];
            if rec.device_class == DeviceClass::Mouse {
                self.mice.push(Mouse::new(rec.product_name.clone(), rec.handle));
            } else if rec.device_class == DeviceClass::Keyboard {
                self.keyboards.push(Keyboard::new(rec.product_name.clone(), rec.handle));
            }
            proof {
                lemma_class_indices_step(records@, DeviceClass::Mouse, i as int);
                lemma_class_indices_step(records@, DeviceClass::Keyboard, i as int);
                let midx1 = spec_class_indices(records@.subrange(0, i + 1), DeviceClass::Mouse);
                let kidx1 = spec_class_indices(records@.subrange(0, i + 1), DeviceClass::Keyboard);
                assert forall|k: int| 0 <= k < midx1.len() implies 0 <= #[trigger] midx1[k] < i + 1
                    && spec_device_from(records@[midx1[k]], self.mice@[m0.len() + k]) by {
                    if k < midx0.len() {
                        assert(midx1[k] == midx0[k]);
                        assert(self.mice@[m0.len() + k] == mice0[m0.len() + k]);
                    } else {
                        assert(midx1[k] == i as int);
                        assert(self.mice@[m0.len() + k] == self.mice@.last());
                    }
                }
                assert forall|k: int| 0 <= k < kidx1.len() implies 0 <= #[trigger] kidx1[k] < i + 1
                    && spec_device_from(records@[kidx1[k]], self.keyboards@[k0.len() + k]) by {
                    if k < kidx0.len() {
                        assert(kidx1[k] == kidx0[k]);
                        assert(self.keyboards@[k0.len() + k] == keyboards0[k0.len() + k]);
                    } else {
                        assert(kidx1[k] == i as int);
                        assert(self.keyboards@[k0.len() + k] == self.keyboards@.last());
                    }
                }
            }
            i = i + 1;
        }
        proof {
            assert(records@.subrange(0, i as int) =~= records@);
        }
    }

    /// The mice added so far, in the order they were added.
    pub fn mice(&self) -> (m: &Vec<Mouse>)
        ensures
            m@ == self.spec_mice(),
    {
        &self.mice
    }

    /// The keyboards added so far, in the order they were added.
    pub fn keyboards(&self) -> (k: &Vec<Keyboard>)
        ensures
            k@ == self.spec_keyboards(),
    {
        &self.keyboards
    }
}

} // verus!
