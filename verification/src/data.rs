//! Object data: metadata, stored entries, and the trigger registry.

use vstd::prelude::*;
use crate::entries::EntryMap;
use crate::model::{ObjectMetadata, ObjectMetadataV};
use crate::trigger::{ObjectEvent, ObjectEventV};

verus! {

/// Mathematical value of an [`ObjectData`].
#[verifier::ext_equal]
pub ghost struct ObjectDataV {
    pub meta: ObjectMetadataV,
    pub entries: Map<u32, Seq<u8>>,
    pub event: Option<ObjectEventV>,
}

/// The view of an optional trigger registry.
pub open spec fn opt_event_view(e: Option<ObjectEvent>) -> Option<ObjectEventV> {
    match e {
        Some(ev) => Some(ev@),
        None => None,
    }
}

/// The optional trigger registry is well formed when present.
pub open spec fn opt_event_wf(e: Option<ObjectEvent>) -> bool {
    match e {
        Some(ev) => ev.wf(),
        None => true,
    }
}

/// One object's data: its identity, its stored field entries, and the
/// event-trigger registry it exclusively owns.
pub struct ObjectData {
    pub meta: ObjectMetadata,
    pub entries: EntryMap,
    pub event: Option<ObjectEvent>,
}

impl View for ObjectData {
    type V = ObjectDataV;

    open spec fn view(&self) -> ObjectDataV {
        ObjectDataV {
            meta: self.meta@,
            entries: self.entries@,
            event: opt_event_view(self.event),
        }
    }
}

impl ObjectData {
    /// The entry map and the registry, when present, are well formed.
    pub open spec fn wf(self) -> bool {
        self.entries.wf() && opt_event_wf(self.event)
    }

    /// Creates object data with no trigger registry.
    pub fn new(meta: ObjectMetadata, entries: EntryMap) -> (r: Self)
        requires
            entries.wf(),
        ensures
            r.wf(),
            r@ == (ObjectDataV {
                meta: meta@,
                entries: entries@,
                event: None::<ObjectEventV>,
            }),
    {
        ObjectData { meta, entries, event: None }
    }

    /// Creates a copy of this object's data.
    pub fn copy(&self) -> (r: Self)
        requires
            self.wf(),
        ensures
            r.wf(),
            r@ == self@,
    {
        let event = match &self.event {
            Some(e) => Some(e.duplicate()),
            None => None,
        };
        ObjectData {
            meta: self.meta.duplicate(),
            entries: self.entries.duplicate(),
            event,
        }
    }
}

} // verus!
