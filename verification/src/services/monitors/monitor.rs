use crate::common::configuration::DatabaseStoreLevel;
use crate::common::monitorstatus::Status;
use crate::services::registry::{updated, Registry};
use vstd::prelude::*;

verus! {

/// What every kind of monitor offers: its name, its store level, and the writing of its
/// status into the registry.
pub trait Monitor {
    /// The monitor's name, the key of its entry in the registry.
    spec fn name(&self) -> Seq<char>;

    /// The level that governs what the monitor stores.
    spec fn store_level(&self) -> DatabaseStoreLevel;

    /// The name of the monitor.
    fn get_name(&self) -> (name: &str)
        ensures
            name@ == self.name(),
    ;

    /// The database store level of the monitor.
    fn get_database_store_level(&self) -> (level: DatabaseStoreLevel)
        ensures
            level == self.store_level(),
    ;

    /// Writes `status` as this monitor's entry. Only the entry under the monitor's own name
    /// changes, and only if the name is registered.
    fn set_status(&self, registry: &mut Registry, status: &Status)
        ensures
            final(registry)@ == updated(old(registry)@, self.name(), status@),
            final(registry)@.dom() == old(registry)@.dom(),
    {
        let _written = registry.set(self.get_name(), status.clone());
    }
}

} // verus!
