//! A sensor: one physical or logical sensing endpoint, with an optional
//! assigned identifier and an attribute store that holds at most one entry
//! per attribute kind.
use vstd::prelude::*;

use crate::attr::{
    attr_lookup, attr_upsert, attrs_wf, lemma_attr_lookup_found, lemma_attr_lookup_missing,
    lemma_attr_upsert_found, lemma_attr_upsert_missing, lemma_attr_upsert_wf, SensorAttr,
};
use crate::suid::Suid;

verus! {

/// One sensing endpoint: an optional identifier (assigned once by the sensor
/// manager, never changed afterwards) and its attribute store.
#[derive(Debug, PartialEq)]
pub struct Sensor {
    pub suid: Option<Suid>,
    pub attrs: Vec<SensorAttr>,
}

impl Sensor {
    /// The sensor's invariant: its store holds at most one attribute per
    /// kind.
    pub open spec fn wf(&self) -> bool {
        attrs_wf(self.attrs@)
    }

    /// A fresh, unassigned sensor with an empty attribute store.
    pub fn new() -> (r: Sensor)
        ensures
            r.suid is None,
            r.attrs@ == Seq::<SensorAttr>::empty(),
            r.wf(),
    {
        Sensor { suid: None, attrs: Vec::new() }
    }

    /// Assigns the identifier. Only the sensor manager does this, at first
    /// registration.
    pub(crate) fn set_suid(&mut self, suid: Suid)
        ensures
            final(self).suid == Some(suid),
            final(self).attrs == old(self).attrs,
    {
        self.suid = Some(suid);
    }

    /// The identifier this sensor was assigned, if any.
    pub fn get_suid(&self) -> (r: Option<&Suid>)
        ensures
            match r {
                Some(s) => self.suid == Some(*s),
                None => self.suid is None,
            },
    {
        match &self.suid {
            Some(s) => Some(s),
            None => None,
        }
    }

    /// The stored attribute whose kind matches the query's kind; the query's
    /// payload is only a kind selector and is never compared.
    pub fn get_attr(&self, attr: SensorAttr) -> (r: Option<&SensorAttr>)
        ensures
            match r {
                Some(a) => attr_lookup(self.attrs@, attr.spec_id()) == Some(*a),
                None => attr_lookup(self.attrs@, attr.spec_id()) is None,
            },
    {
        let id = attr.id();
        let mut i: usize = 0;
        while i < self.attrs.len()
            invariant
                0 <= i <= self.attrs@.len(),
                id == attr.spec_id(),
                forall|j: int| 0 <= j < i ==> (#[trigger] self.attrs@[j].spec_id()) != id,
            decreases self.attrs@.len() - i,
        {
            if self.attrs[i].id() == id {
                proof {
                    lemma_attr_lookup_found(self.attrs@, id, i as int);
                }
                return Some(&self.attrs[i]);
            }
            i += 1;
        }
        proof {
            lemma_attr_lookup_missing(self.attrs@, id);
        }
        None
    }

    /// Upserts the attribute into its kind's slot: replaces the first entry
    /// of the same kind in place, or appends if the kind is absent. The last
    /// write per kind wins.
    pub fn set_attr(&mut self, attr: SensorAttr)
        ensures
            final(self).attrs@ == attr_upsert(old(self).attrs@, attr),
            final(self).suid == old(self).suid,
            old(self).wf() ==> final(self).wf(),
    {
        let ghost s0 = self.attrs@;
        let id = attr.id();
        let mut i: usize = 0;
        while i < self.attrs.len()
            invariant
                0 <= i <= self.attrs@.len(),
                self.attrs@ == s0,
                s0 == old(self).attrs@,
                self.suid == old(self).suid,
                id == attr.spec_id(),
                forall|j: int| 0 <= j < i ==> (#[trigger] s0[j].spec_id()) != id,
            decreases self.attrs@.len() - i,
        {
            if self.attrs[i].id() == id {
                proof {
                    lemma_attr_upsert_found(s0, attr, i as int);
                    if attrs_wf(s0) {
                        lemma_attr_upsert_wf(s0, attr);
                    }
                }
                let slot = &mut self.attrs[i];
                *slot = attr;
                return;
            }
            i += 1;
        }
        proof {
            lemma_attr_upsert_missing(s0, attr);
            if attrs_wf(s0) {
                lemma_attr_upsert_wf(s0, attr);
            }
        }
        self.attrs.push(attr);
    }
}

/// Lifecycle hooks a concrete driver may override for its own sensors. The
/// defaults do nothing; the hardware-specific behavior behind them is outside
/// this core.
pub trait SensorOps: Sync {
    /// Starts sampling at the requested output data rate.
    fn open(&mut self, req_odr: u32) {
    }

    /// Brings the underlying hardware up.
    fn hw_open(&mut self) {
    }

    /// Stops sampling.
    fn close(&mut self) {
    }

    /// Flushes any batched samples.
    fn flush(&mut self) {
    }

    /// Reconfigures batching.
    fn batch(&mut self) {
    }
}

impl SensorOps for Sensor {

}

} // verus!
