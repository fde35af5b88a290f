//! Per-channel metadata: the channel's name, its mode flags, its
//! membership set of user identifiers, an optional topic, and an
//! optional user limit.

use std::collections::HashSet;

use vstd::prelude::*;

use crate::command::ChannelMode;

verus! {

broadcast use vstd::std_specs::hash::group_hash_axioms;

/// Metadata for one channel.
pub struct ChannelMeta {
    name: String,
    modes: Vec<ChannelMode>,
    /// The identifiers of the users currently in the channel.
    users: HashSet<u64>,
    topic: Option<String>,
    limit: Option<u32>,
}

/// The mathematical shape of a [`ChannelMeta`]: membership is a set of
/// user identifiers.
#[verifier::ext_equal]
pub ghost struct ChannelMetaModel {
    pub name: Seq<char>,
    pub modes: Seq<ChannelMode>,
    pub users: Set<u64>,
    pub topic: Option<Seq<char>>,
    pub limit: Option<u32>,
}

impl View for ChannelMeta {
    type V = ChannelMetaModel;

    closed spec fn view(&self) -> ChannelMetaModel {
        ChannelMetaModel {
            name: self.name@,
            modes: self.modes@,
            users: self.users@,
            topic: self.topic.deep_view(),
            limit: self.limit,
        }
    }
}

impl ChannelMeta {
    /// The channel's topic, if one has been set.
    pub fn topic(&self) -> (r: &Option<String>)
        ensures
            r.deep_view() == self@.topic,
    {
        &self.topic
    }

    /// Sets the channel's user limit.
    pub fn limit(&mut self, limit: u32)
        ensures
            final(self)@ == (ChannelMetaModel { limit: Some(limit), ..old(self)@ }),
    {
        self.limit = Some(limit);
    }

    /// A fresh channel: no modes, no topic, no limit, and `user` as its
    /// single member.
    pub fn new(name: String, user: u64) -> (r: Self)
        ensures
            r@ == (ChannelMetaModel {
                name: name@,
                modes: Seq::<ChannelMode>::empty(),
                users: Set::<u64>::empty().insert(user),
                topic: None,
                limit: None,
            }),
    {
        let mut users = HashSet::new();
        users.insert(user);
        Self { name, modes: Vec::new(), users, topic: None, limit: None }
    }

    /// The channel's name.
    pub fn name(&self) -> (r: &str)
        ensures
            r@ == self@.name,
    {
        self.name.as_str()
    }

    /// Admits a user: membership gains `user` and nothing else changes.
    /// Joining twice is the same as joining once.
    pub fn join(&mut self, user: u64)
        ensures
            final(self)@ == (ChannelMetaModel {
                users: old(self)@.users.insert(user),
                ..old(self)@
            }),
    {
        self.users.insert(user);
    }

    /// Whether `user` is currently a member.
    pub fn contains_user(&self, user: u64) -> (r: bool)
        ensures
            r == self@.users.contains(user),
    {
        self.users.contains(&user)
    }

    /// Removes a user from the membership set.  On a user that is not a
    /// member this changes nothing.
    pub fn leave(&mut self, user: u64)
        ensures
            final(self)@ == (ChannelMetaModel {
                users: old(self)@.users.remove(user),
                ..old(self)@
            }),
            !old(self)@.users.contains(user) ==> final(self)@ == old(self)@,
    {
        self.users.remove(&user);
        proof {
            if !old(self)@.users.contains(user) {
                assert(old(self)@.users.remove(user) =~= old(self)@.users);
            }
        }
    }
}

} // verus!
