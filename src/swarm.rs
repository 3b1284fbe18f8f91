use vstd::prelude::*;
use crate::text::{decimal_chars, decimal_of, push_all};

verus! {

/// The two worker roles of a swarm.
#[derive(PartialEq, Eq, Structural, Clone, Copy, Debug)]
pub enum Role {
    Generator,
    Observer,
}

/// Why a swarm could not be built.
#[derive(PartialEq, Eq, Structural, Clone, Copy, Debug)]
pub enum SwarmError {
    /// A swarm of zero instances was asked for.
    EmptySwarm,
    /// The session of this instance could not connect.
    ConnectFailed(u64),
}

pub open spec fn role_name(role: Role) -> Seq<char> {
    match role {
        Role::Generator => seq!['p', 'u', 'b', 'l', 'i', 's', 'h', 'e', 'r'],
        Role::Observer => seq!['s', 'u', 'b', 's', 'c', 'r', 'i', 'b', 'e', 'r'],
    }
}

/// The client identity of instance `index`: `{role}_{index}`.
pub open spec fn session_id_of(role: Role, index: u64) -> Seq<char> {
    role_name(role) + seq!['_'] + decimal_of(index as nat)
}

/// The client identity of instance `index` of a swarm of `role`.
pub fn session_id(role: Role, index: u64) -> (r: Vec<char>)
    ensures
        r@ == session_id_of(role, index),
{
    let mut t: Vec<char> = match role {
        Role::Generator => vec!['p', 'u', 'b', 'l', 'i', 's', 'h', 'e', 'r'],
        Role::Observer => vec!['s', 'u', 'b', 's', 'c', 'r', 'i', 'b', 'e', 'r'],
    };
    assert(t@ =~= role_name(role));
    t.push('_');
    push_all(&mut t, &decimal_chars(index));
    assert(t@ =~= session_id_of(role, index));
    t
}

/// The sessions to open for a swarm of `count` instances, one identity per index in
/// order; a swarm of none is refused before any session is named.
pub fn session_ids(role: Role, count: u64) -> (r: Result<Vec<Vec<char>>, SwarmError>)
    ensures
        count == 0 <==> r == Err::<Vec<Vec<char>>, SwarmError>(SwarmError::EmptySwarm),
        count > 0 <==> r is Ok,
        r is Ok ==> r->Ok_0@.len() == count
            && forall|i: int| 0 <= i < count ==> #[trigger] r->Ok_0@[i]@ == session_id_of(role, i as u64),
{
    if count == 0 {
        return Err(SwarmError::EmptySwarm);
    }
    let mut ids: Vec<Vec<char>> = Vec::new();
    let mut i: u64 = 0;
    while i < count
        invariant
            i <= count,
            ids@.len() == i,
            forall|j: int| 0 <= j < i ==> #[trigger] ids@[j]@ == session_id_of(role, j as u64),
        decreases count - i,
    {
        ids.push(session_id(role, i));
        i = i + 1;
    }
    Ok(ids)
}

/// The outcome of building a swarm from the outcome of each connection attempt, in
/// index order: the first failure is fatal, and no partial swarm remains.
pub fn swarm_outcome(connected: &Vec<bool>) -> (r: Result<u64, SwarmError>)
    requires
        connected@.len() <= u64::MAX,
    ensures
        connected@.len() == 0 ==> r == Err::<u64, SwarmError>(SwarmError::EmptySwarm),
        connected@.len() > 0 && (forall|i: int| 0 <= i < connected@.len() ==> #[trigger] connected@[i])
            ==> r == Ok::<u64, SwarmError>(connected@.len() as u64),
        forall|k: u64| r == Err::<u64, SwarmError>(SwarmError::ConnectFailed(k)) <==> (k < connected@.len()
            && !connected@[k as int] && forall|j: int| 0 <= j < k ==> #[trigger] connected@[j]),
{
    if connected.len() == 0 {
        return Err(SwarmError::EmptySwarm);
    }
    let mut i: usize = 0;
    while i < connected.len()
        invariant
            i <= connected@.len(),
            connected@.len() <= u64::MAX,
            forall|j: int| 0 <= j < i ==> #[trigger] connected@[j],
        decreases connected@.len() - i,
    {
        if !connected[i] {
            return Err(SwarmError::ConnectFailed(i as u64));
        }
        i = i + 1;
    }
    Ok(connected.len() as u64)
}

} // verus!
