//! Where the configurations of the transports are found.
use vstd::prelude::*;

use crate::transport::shm::config::ShmConfig;

verus! {

/// The configurations of the transports, by the transport's name.
pub struct TransportCatalog {
    configs: Vec<(String, ShmConfig)>,
}

/// Registrations as a map; a later one takes the place of an earlier one under the same name.
spec fn as_map(configs: Seq<(String, ShmConfig)>) -> Map<Seq<char>, ShmConfig>
    decreases configs.len(),
{
    if configs.len() == 0 {
        Map::empty()
    } else {
        as_map(configs.drop_last()).insert(configs.last().0@, configs.last().1)
    }
}

impl View for TransportCatalog {
    type V = Map<Seq<char>, ShmConfig>;

    closed spec fn view(&self) -> Map<Seq<char>, ShmConfig> {
        as_map(self.configs@)
    }
}

impl TransportCatalog {
    /// A catalog without configurations.
    pub fn new() -> (r: TransportCatalog)
        ensures
            r@ == Map::<Seq<char>, ShmConfig>::empty(),
    {
        TransportCatalog { configs: Vec::new() }
    }

    /// Adds a configuration, in place of the one that was there under this name.
    pub fn register_config(&mut self, name: String, config: ShmConfig)
        ensures
            final(self)@ == old(self)@.insert(name@, config),
    {
        self.configs.push((name, config));
        assert(self.configs@.drop_last() =~= old(self).configs@);
    }

    /// The configuration under a name.
    pub fn get_config(&self, name: &String) -> (r: Option<ShmConfig>)
        ensures
            match r {
                Some(config) => self@.contains_key(name@) && config == self@[name@],
                None => !self@.contains_key(name@),
            },
    {
        let mut i: usize = self.configs.len();
        assert(self.configs@.take(i as int) =~= self.configs@);
        while i > 0
            invariant
                i <= self.configs@.len(),
                self@.contains_key(name@) == as_map(self.configs@.take(i as int)).contains_key(
                    name@,
                ),
                self@.contains_key(name@) ==> self@[name@] == as_map(
                    self.configs@.take(i as int),
                )[name@],
            decreases i,
        {
            proof {
                assert(self.configs@.take(i as int).drop_last() =~= self.configs@.take(i - 1));
                assert(self.configs@.take(i as int).last() == self.configs@[i - 1]);
            }
            i -= 1;
            if self.configs[i].0 == *name {
                return Some(self.configs[i].1);
            }
        }
        None
    }
}

} // verus!
