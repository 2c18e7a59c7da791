//! The map of topics to the message types discovered on them.
use vstd::prelude::*;

verus! {

/// The single message type of each discovered topic, from a list of topics
/// and the types advertised on them; a topic with no type or several is left out.
pub open spec fn single_types(entries: Seq<(String, Vec<String>)>) -> Seq<(Seq<char>, Seq<char>)>
    decreases entries.len(),
{
    if entries.len() == 0 {
        Seq::empty()
    } else {
        let e = entries.last();
        single_types(entries.drop_last()) + if e.1@.len() == 1 {
            seq![(e.0@, e.1@[0]@)]
        } else {
            Seq::empty()
        }
    }
}

/// The type of the newest entry for `topic`.
pub open spec fn type_of(s: Seq<(Seq<char>, Seq<char>)>, topic: Seq<char>) -> Option<Seq<char>>
    decreases s.len(),
{
    if s.len() == 0 {
        None
    } else if s.last().0 == topic {
        Some(s.last().1)
    } else {
        type_of(s.drop_last(), topic)
    }
}

/// Which message type each topic of the middleware graph carries, as last discovered.
pub struct TopicTypes {
    entries: Vec<(String, String)>,
}

impl View for TopicTypes {
    type V = Seq<(Seq<char>, Seq<char>)>;

    closed spec fn view(&self) -> Seq<(Seq<char>, Seq<char>)> {
        self.entries@.map_values(|e: (String, String)| (e.0@, e.1@))
    }
}

impl TopicTypes {
    pub fn new() -> (r: Self)
        ensures
            r@.len() == 0,
    {
        let r = TopicTypes { entries: Vec::new() };
        assert(r@ =~= Seq::empty());
        r
    }

    /// Replaces what is known with a fresh listing of topics and their types.
    pub fn refresh(&mut self, listing: &Vec<(String, Vec<String>)>)
        ensures
            final(self)@ == single_types(listing@),
    {
        let mut entries: Vec<(String, String)> = Vec::new();
        let mut i: usize = 0;
        while i < listing.len()
            invariant
                0 <= i <= listing@.len(),
                entries@.map_values(|e: (String, String)| (e.0@, e.1@)) =~= single_types(listing@.take(i as int)),
            decreases listing@.len() - i,
        {
            assert(listing@.take(i + 1).drop_last() =~= listing@.take(i as int));
            let types = &listing[i].1;
            if types.len() == 1 {
                let ghost before = entries@;
                let e = (listing[i].0.clone(), types[0].clone());
                entries.push(e);
                assert(entries@.map_values(|e: (String, String)| (e.0@, e.1@)) =~= before.map_values(|e: (String, String)| (e.0@, e.1@)).push((e.0@, e.1@)));
            }
            i = i + 1;
        }
        assert(listing@.take(listing@.len() as int) =~= listing@);
        self.entries = entries;
    }

    /// The message type of `topic`, as last discovered.
    pub fn get(&self, topic: &String) -> (r: Option<String>)
        ensures
            match r {
                Some(t) => type_of(self@, topic@) == Some(t@),
                None => type_of(self@, topic@) is None,
            },
    {
        let ghost s = self@;
        let mut i: usize = self.entries.len();
        assert(s.take(i as int) =~= s);
        while i > 0
            invariant
                0 <= i <= s.len(),
                s == self@,
                type_of(s, topic@) == type_of(s.take(i as int), topic@),
            decreases i,
        {
            assert(s.take(i as int).drop_last() =~= s.take(i - 1));
            if self.entries[i - 1].0 == *topic {
                return Some(self.entries[i - 1].1.clone());
            }
            i = i - 1;
        }
        None
    }
}

} // verus!
