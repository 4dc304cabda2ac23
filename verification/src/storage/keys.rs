//! Keys for use as ids.

use std::collections::hash_map::DefaultHasher;
use std::hash::Hasher;
use std::time::{Duration, SystemTime, SystemTimeError};

use vstd::prelude::*;
use vstd::std_specs::hash::DefaultHasherAdditionalSpecFns;

use super::EcstaticStorage;
use crate::trusted::{fed, since_epoch};

verus! {

impl EcstaticStorage {
    /// `key` is the digest of a hasher that was fed `elapsed` and nothing else.
    pub closed spec fn is_key_from(elapsed: Duration, key: u64) -> bool {
        exists|hasher: DefaultHasher, after: DefaultHasher|
            hasher@ == Seq::<Seq<u8>>::empty() && #[trigger] call_ensures(
                fed,
                (&elapsed, hasher),
                after,
            ) && key == DefaultHasher::spec_finish(after@)
    }

    /// `key` is the hash of the time since the Unix epoch, as the clock shows it or, if the clock
    /// shows an earlier time, the digest of a hasher that was fed nothing.
    pub closed spec fn is_key_now(key: u64) -> bool {
        exists|now: SystemTime, elapsed: Result<Duration, SystemTimeError>|
            call_ensures(SystemTime::now, (), now) && #[trigger] call_ensures(
                since_epoch,
                (&now,),
                elapsed,
            ) && match elapsed {
                Ok(elapsed) => Self::is_key_from(elapsed, key),
                Err(_) => key == DefaultHasher::spec_finish(Seq::<Seq<u8>>::empty()),
            }
    }

    /// What it is to be the key of a length of time.
    pub(crate) proof fn lemma_key_from(elapsed: Duration, key: u64)
        requires
            Self::is_key_from(elapsed, key),
        ensures
            exists|a: DefaultHasher, b: DefaultHasher|
                {
                    &&& a@ == Seq::<Seq<u8>>::empty()
                    &&& #[trigger] call_ensures(fed, (&elapsed, a), b)
                    &&& key == DefaultHasher::spec_finish(b@)
                },
    {
    }

    /// What it is to be the key of the time that the clock shows.
    pub(crate) proof fn lemma_key_now(key: u64)
        requires
            Self::is_key_now(key),
        ensures
            exists|now: SystemTime, elapsed: Result<Duration, SystemTimeError>|
                {
                    &&& call_ensures(SystemTime::now, (), now)
                    &&& #[trigger] call_ensures(since_epoch, (&now,), elapsed)
                    &&& elapsed is Err ==> key == DefaultHasher::spec_finish(
                        Seq::<Seq<u8>>::empty(),
                    )
                    &&& elapsed is Ok ==> exists|a: DefaultHasher, b: DefaultHasher|
                        {
                            &&& a@ == Seq::<Seq<u8>>::empty()
                            &&& #[trigger] call_ensures(fed, (&elapsed->Ok_0, a), b)
                            &&& key == DefaultHasher::spec_finish(b@)
                        }
                },
    {
        let (now, elapsed) = choose|now: SystemTime, elapsed: Result<Duration, SystemTimeError>|
            call_ensures(SystemTime::now, (), now) && #[trigger] call_ensures(
                since_epoch,
                (&now,),
                elapsed,
            ) && match elapsed {
                Ok(elapsed) => Self::is_key_from(elapsed, key),
                Err(_) => key == DefaultHasher::spec_finish(Seq::<Seq<u8>>::empty()),
            };
        if elapsed is Ok {
            Self::lemma_key_from(elapsed->Ok_0, key);
        }
        assert(call_ensures(since_epoch, (&now,), elapsed));
    }

    /// Returns the hash of a length of time.
    pub fn key_from(elapsed: &Duration) -> (key: u64)
        ensures
            Self::is_key_from(*elapsed, key),
    {
        fed(elapsed, DefaultHasher::new()).finish()
    }

    /// Default function to generate a u64 key for use as an id: the hash of the time since the
    /// Unix epoch or, if the clock shows an earlier time, the digest of a hasher that was fed
    /// nothing.
    pub fn generate_key() -> (key: u64)
        ensures
            Self::is_key_now(key),
    {
        match since_epoch(&SystemTime::now()) {
            Ok(elapsed) => Self::key_from(&elapsed),
            Err(_) => DefaultHasher::new().finish(),
        }
    }
}

} // verus!
