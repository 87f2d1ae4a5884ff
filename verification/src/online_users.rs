//! The names of the users whose sessions are open.

use vstd::prelude::*;

verus! {

/// The user names of the open sessions, one entry for each session, in the
/// order in which the sessions were opened.
#[derive(Debug, Clone, PartialEq, Eq)]
pub struct OnlineUsers {
    pub names: Vec<String>,
}

/// `names` without the first entry that equals `name`.
pub open spec fn without_first(names: Seq<Seq<char>>, name: Seq<char>) -> Seq<Seq<char>>
    decreases names.len(),
{
    if names.len() == 0 {
        names
    } else if names.first() == name {
        names.drop_first()
    } else {
        seq![names.first()] + without_first(names.drop_first(), name)
    }
}

/// How many of the first `n` entries of `names` equal `name`.
pub open spec fn sessions_among(names: Seq<Seq<char>>, name: Seq<char>, n: int) -> int
    decreases n,
{
    if n <= 0 {
        0
    } else if names[n - 1] == name {
        sessions_among(names, name, n - 1) + 1
    } else {
        sessions_among(names, name, n - 1)
    }
}

/// Taking out the entry at the first place where `name` stands is taking
/// out the first entry that equals `name`.
pub proof fn lemma_without_first_at(names: Seq<Seq<char>>, name: Seq<char>, at: int)
    requires
        0 <= at < names.len(),
        names[at] == name,
        forall|j: int| 0 <= j < at ==> names[j] != name,
    ensures
        without_first(names, name) == names.remove(at),
    decreases at,
{
    if at == 0 {
        assert(names.drop_first() =~= names.remove(0));
    } else {
        let rest = names.drop_first();
        assert forall|j: int| 0 <= j < at - 1 implies rest[j] != name by {
            assert(rest[j] == names[j + 1]);
        }
        lemma_without_first_at(rest, name, at - 1);
        assert(seq![names.first()] + rest.remove(at - 1) =~= names.remove(at));
    }
}

/// Where no entry equals `name`, taking out the first such entry changes
/// nothing.
pub proof fn lemma_without_first_absent(names: Seq<Seq<char>>, name: Seq<char>)
    requires
        forall|j: int| 0 <= j < names.len() ==> names[j] != name,
    ensures
        without_first(names, name) == names,
    decreases names.len(),
{
    if names.len() > 0 {
        let rest = names.drop_first();
        assert forall|j: int| 0 <= j < rest.len() implies rest[j] != name by {
            assert(rest[j] == names[j + 1]);
        }
        lemma_without_first_absent(rest, name);
        assert(seq![names.first()] + rest =~= names);
    }
}

impl View for OnlineUsers {
    type V = Seq<Seq<char>>;

    open spec fn view(&self) -> Seq<Seq<char>> {
        Seq::new(self.names@.len(), |i: int| self.names@[i]@)
    }
}

impl OnlineUsers {
    /// No session is open.
    pub fn new() -> (r: Self)
        ensures
            r@ == Seq::<Seq<char>>::empty(),
    {
        let r = OnlineUsers { names: Vec::new() };
        assert(r@ =~= Seq::<Seq<char>>::empty());
        r
    }

    /// A session of `name` opens.
    pub fn join(&mut self, name: String)
        ensures
            final(self)@ == old(self)@.push(name@),
    {
        self.names.push(name);
        assert(self@ =~= old(self)@.push(name@));
    }

    /// A session of `name` closes: the first entry of the name leaves.
    pub fn leave(&mut self, name: &String)
        ensures
            final(self)@ == without_first(old(self)@, name@),
    {
        let mut i: usize = 0;
        while i < self.names.len()
            invariant
                i <= self.names@.len(),
                *self == *old(self),
                forall|j: int| 0 <= j < i ==> self@[j] != name@,
            decreases self.names@.len() - i,
        {
            if self.names[i] == *name {
                proof {
                    lemma_without_first_at(self@, name@, i as int);
                }
                self.names.remove(i);
                assert(self@ =~= old(self)@.remove(i as int));
                return ;
            }
            i = i + 1;
        }
        proof {
            lemma_without_first_absent(self@, name@);
        }
    }

    /// The number of open sessions of `name`.
    pub fn session_count(&self, name: &String) -> (n: usize)
        ensures
            n == sessions_among(self@, name@, self@.len() as int),
    {
        let mut n: usize = 0;
        let mut i: usize = 0;
        while i < self.names.len()
            invariant
                i <= self.names@.len(),
                n <= i,
                n == sessions_among(self@, name@, i as int),
            decreases self.names@.len() - i,
        {
            if self.names[i] == *name {
                n = n + 1;
            }
            i = i + 1;
        }
        n
    }
}

} // verus!
