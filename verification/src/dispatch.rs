//! The event dispatcher: a table from event names to the reactions that
//! their owner registered, in the order of registration.
//!
//! A reaction is a number that means something to the owner alone. New
//! names are registered here; the codec and the session know none of them.

use crate::codec::{Packet, PacketView};
use crate::text::same_text;
use vstd::prelude::*;

verus! {

/// The table of registered reactions.
#[derive(Debug)]
pub struct Dispatcher {
    routes: Vec<(String, u64)>,
}

/// A packet on its way to the owner, with the reactions that it calls for.
#[derive(Debug, PartialEq, Eq)]
pub struct Delivery {
    pub packet: Packet,
    pub reactions: Vec<u64>,
}

impl View for Dispatcher {
    type V = Seq<(Seq<char>, u64)>;

    closed spec fn view(&self) -> Seq<(Seq<char>, u64)> {
        Seq::new(self.routes@.len(), |i: int| (self.routes@[i].0@, self.routes@[i].1))
    }
}

/// The reactions registered under `name`, in the order of registration.
pub open spec fn reactions_to(routes: Seq<(Seq<char>, u64)>, name: Seq<char>) -> Seq<u64>
    decreases routes.len(),
{
    if routes.len() == 0 {
        Seq::empty()
    } else if routes.last().0 == name {
        reactions_to(routes.drop_last(), name).push(routes.last().1)
    } else {
        reactions_to(routes.drop_last(), name)
    }
}

/// The reactions that a packet calls for: those registered under its name
/// if it is a named event, none for any other packet.
pub open spec fn routed(routes: Seq<(Seq<char>, u64)>, packet: PacketView) -> Seq<u64> {
    match packet {
        PacketView::Event { name: Some(name), .. } => reactions_to(routes, name),
        _ => Seq::empty(),
    }
}

impl Dispatcher {
    /// A dispatcher with nothing registered.
    pub fn new() -> (d: Dispatcher)
        ensures
            d@ == Seq::<(Seq<char>, u64)>::empty(),
    {
        Dispatcher { routes: Vec::new() }
    }

    /// Registers one more reaction under `name`, after all earlier ones.
    pub fn register(&mut self, name: &str, reaction: u64)
        ensures
            final(self)@ == old(self)@.push((name@, reaction)),
    {
        self.routes.push((name.to_owned(), reaction));
    }

    /// The reactions registered under `name`, in the order of registration.
    pub fn reactions(&self, name: &str) -> (found: Vec<u64>)
        ensures
            found@ == reactions_to(self@, name@),
    {
        let mut found: Vec<u64> = Vec::new();
        let mut i: usize = 0;
        while i < self.routes.len()
            invariant
                i <= self.routes@.len(),
                found@ == reactions_to(self@.take(i as int), name@),
            decreases self.routes@.len() - i,
        {
            assert(self@.take(i + 1).drop_last() =~= self@.take(i as int));
            if same_text(self.routes[i].0.as_str(), name) {
                found.push(self.routes[i].1);
            }
            i = i + 1;
        }
        assert(self@.take(i as int) =~= self@);
        found
    }

    /// Pairs a packet with the reactions that it calls for. The packet
    /// goes to the owner in any case, with or without reactions.
    pub fn dispatch(&self, packet: Packet) -> (delivery: Delivery)
        ensures
            delivery.packet == packet,
            delivery.reactions@ == routed(self@, packet@),
    {
        let reactions = match &packet {
            Packet::Event { name: Some(name), .. } => self.reactions(name.as_str()),
            _ => Vec::new(),
        };
        Delivery { packet, reactions }
    }
}

/// Registering under one name adds the reaction at the end of that name's
/// list and leaves the list of every other name as it was.
pub proof fn lemma_register_extends(
    routes: Seq<(Seq<char>, u64)>,
    name: Seq<char>,
    reaction: u64,
    other: Seq<char>,
)
    requires
        other != name,
    ensures
        reactions_to(routes.push((name, reaction)), name) == reactions_to(routes, name).push(
            reaction,
        ),
        reactions_to(routes.push((name, reaction)), other) == reactions_to(routes, other),
{
    assert(routes.push((name, reaction)).drop_last() =~= routes);
}

/// Packets that are no named event call for no reaction, whatever is
/// registered.
pub proof fn lemma_only_named_events_are_routed(routes: Seq<(Seq<char>, u64)>, packet: PacketView)
    requires
        !(packet matches PacketView::Event { name: Some(_), .. }),
    ensures
        routed(routes, packet) == Seq::<u64>::empty(),
{
}

} // verus!
