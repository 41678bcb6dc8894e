//! The service's configuration state: its name, who owns it, how many users
//! it has, and the invite codes that stand in for a payment. The order
//! counters are the engine's.

use crate::journal::{stored_state, Journal, STATE_KEY};
use crate::principal::Principal;
use crate::state_codec::{law_state_decode_inverts_encode, state_encoding};
use vstd::prelude::*;

verus! {

/// How many invite codes can be outstanding at once.
pub const MAX_INVITE_CODES: usize = 20;

/// Why a change to the configuration state was refused.
#[derive(Clone, Copy, Debug, PartialEq, Eq, Structural)]
pub enum StateError {
    /// The list of invite codes is full.
    MaximumRecords,
}

/// The configuration state that is kept on the heap while the service runs.
#[derive(Debug)]
pub struct UserState {
    pub name: String,
    pub owner: Principal,
    pub indexer_canister_id: Principal,
    pub user_count: u128,
    pub invite_codes: Vec<String>,
}

/// The mathematical content of the configuration state.
pub struct StateView {
    pub name: Seq<char>,
    pub owner: Seq<u8>,
    pub indexer_canister_id: Seq<u8>,
    pub user_count: u128,
    pub invite_codes: Seq<Seq<char>>,
}

impl View for UserState {
    type V = StateView;

    open spec fn view(&self) -> StateView {
        StateView {
            name: self.name@,
            owner: self.owner@,
            indexer_canister_id: self.indexer_canister_id@,
            user_count: self.user_count,
            invite_codes: self.invite_codes@.map_values(|s: String| s@),
        }
    }
}

/// The state of a service that was never configured.
pub open spec fn default_state() -> StateView {
    StateView {
        name: "User Center"@,
        owner: Principal::anonymous_bytes(),
        indexer_canister_id: Principal::anonymous_bytes(),
        user_count: 0,
        invite_codes: Seq::empty(),
    }
}

/// A copy of a list of strings.
pub fn copy_strings(src: &Vec<String>) -> (out: Vec<String>)
    ensures
        out@.map_values(|s: String| s@) == src@.map_values(|s: String| s@),
{
    let mut out: Vec<String> = Vec::new();
    let mut i: usize = 0;
    while i < src.len()
        invariant
            i <= src@.len(),
            out@.map_values(|s: String| s@) == src@.map_values(|s: String| s@).subrange(
                0,
                i as int,
            ),
        decreases src@.len() - i,
    {
        let ghost shown = out@.map_values(|s: String| s@);
        out.push(src[i].clone());
        assert(out@.map_values(|s: String| s@) =~= shown.push(src@[i as int]@));
        assert(shown.push(src@[i as int]@) =~= src@.map_values(|s: String| s@).subrange(
            0,
            i + 1,
        ));
        i += 1;
    }
    assert(src@.map_values(|s: String| s@).subrange(0, src@.len() as int) =~= src@.map_values(
        |s: String| s@,
    ));
    out
}

impl UserState {
    /// The state of a service that was never configured.
    pub fn initial() -> (state: UserState)
        ensures
            state@ == default_state(),
    {
        let state = UserState {
            name: "User Center".to_owned(),
            owner: Principal::anonymous(),
            indexer_canister_id: Principal::anonymous(),
            user_count: 0,
            invite_codes: Vec::new(),
        };
        assert(state@.invite_codes =~= Seq::<Seq<char>>::empty());
        state
    }

    /// A copy of this state.
    pub fn duplicate(&self) -> (out: UserState)
        ensures
            out@ == self@,
    {
        UserState {
            name: self.name.clone(),
            owner: self.owner.duplicate(),
            indexer_canister_id: self.indexer_canister_id.duplicate(),
            user_count: self.user_count,
            invite_codes: copy_strings(&self.invite_codes),
        }
    }
}

/// Replaces the state on the heap by what stable memory holds: the state
/// that was saved last, or the state of a service that was never configured
/// where none was saved. Where what is stored cannot have been written by
/// `save`, the state on the heap stays as it is and the answer is `false`.
pub fn load(journal: &Journal, state: &mut UserState) -> (loaded: bool)
    ensures
        loaded == stored_state(journal.settings()).is_some(),
        final(state)@ == match stored_state(journal.settings()) {
            Some(v) => v,
            None => old(state)@,
        },
{
    match journal.load_state() {
        Some(found) => {
            *state = found;
            true
        },
        None => false,
    }
}

/// Writes the state on the heap to stable memory, where `load` finds it
/// again. Every stored order and every other setting stays as it is.
pub fn save(state: &UserState, journal: &mut Journal)
    ensures
        final(journal).order_bytes() == old(journal).order_bytes(),
        final(journal).settings() == old(journal).settings().insert(
            STATE_KEY,
            state_encoding(state@),
        ),
        stored_state(final(journal).settings()) == Some(state@),
{
    journal.save_state(state);
    proof {
        law_state_decode_inverts_encode(state@);
    }
}

/// The first index at which the list holds the code, or the list's length
/// when it does not hold it.
pub fn find_invite_code(codes: &Vec<String>, invite_code: &String) -> (at: usize)
    ensures
        at <= codes@.len(),
        at < codes@.len() ==> codes@[at as int]@ == invite_code@,
        forall|j: int| 0 <= j < at ==> codes@[j]@ != invite_code@,
        (at < codes@.len()) == codes@.map_values(|s: String| s@).contains(invite_code@),
{
    let ghost shown = codes@.map_values(|s: String| s@);
    let mut i: usize = 0;
    while i < codes.len()
        invariant
            i <= codes@.len(),
            shown == codes@.map_values(|s: String| s@),
            forall|j: int| 0 <= j < i ==> codes@[j]@ != invite_code@,
        decreases codes@.len() - i,
    {
        if codes[i] == *invite_code {
            assert(shown[i as int] == invite_code@);
            return i;
        }
        i += 1;
    }
    assert(!shown.contains(invite_code@)) by {
        if shown.contains(invite_code@) {
            let j = choose|j: int| 0 <= j < shown.len() && shown[j] == invite_code@;
            assert(codes@[j]@ == invite_code@);
        }
    }
    i
}

/// Whether the code is among the outstanding invite codes.
pub fn check_invite_code(state: &UserState, invite_code: &String) -> (known: bool)
    ensures
        known == state@.invite_codes.contains(invite_code@),
{
    find_invite_code(&state.invite_codes, invite_code) < state.invite_codes.len()
}

/// Adds an invite code. A code that is already outstanding is accepted and
/// changes nothing; a new one is appended unless 20 are outstanding, in
/// which case it is refused with `MaximumRecords`.
pub fn add_invite_code(state: &mut UserState, invite_code: String) -> (added: Result<
    String,
    StateError,
>)
    ensures
        added.is_err() == (!old(state)@.invite_codes.contains(invite_code@) && old(
            state,
        )@.invite_codes.len() >= MAX_INVITE_CODES),
        added.is_err() ==> added == Err::<String, StateError>(StateError::MaximumRecords),
        added.is_ok() ==> added.unwrap()@ == invite_code@,
        final(state)@ == if old(state)@.invite_codes.contains(invite_code@) || added.is_err() {
            old(state)@
        } else {
            StateView {
                invite_codes: old(state)@.invite_codes.push(invite_code@),
                ..old(state)@
            }
        },
{
    let ghost before = state@;
    if find_invite_code(&state.invite_codes, &invite_code) < state.invite_codes.len() {
        return Ok(invite_code);
    }
    if state.invite_codes.len() >= MAX_INVITE_CODES {
        return Err(StateError::MaximumRecords);
    }
    state.invite_codes.push(invite_code.clone());
    assert(state@.invite_codes =~= before.invite_codes.push(invite_code@));
    Ok(invite_code)
}

/// Takes an invite code out of the list: its first occurrence is removed,
/// and a code that is not outstanding changes nothing. Always succeeds.
pub fn delete_invite_code(state: &mut UserState, invite_code: String) -> (deleted: Result<
    String,
    StateError,
>)
    ensures
        deleted.is_ok(),
        deleted.unwrap()@ == invite_code@,
        final(state)@ == (StateView {
            invite_codes: old(state)@.invite_codes.remove_value(invite_code@),
            ..old(state)@
        }),
{
    let ghost before = state@;
    let at = find_invite_code(&state.invite_codes, &invite_code);
    proof {
        before.invite_codes.index_of_first_ensures(invite_code@);
    }
    if at < state.invite_codes.len() {
        assert(before.invite_codes[at as int] == invite_code@);
        assert(before.invite_codes.index_of_first(invite_code@) == Some(at as int)) by {
            let k = before.invite_codes.index_of_first(invite_code@).unwrap();
            if k < at {
                assert(state.invite_codes@[k]@ == before.invite_codes[k]);
            }
        }
        state.invite_codes.remove(at);
        assert(state@.invite_codes =~= before.invite_codes.remove(at as int));
    } else {
        assert(state@.invite_codes =~= before.invite_codes);
    }
    Ok(invite_code)
}

/// What an anonymous caller is told.
pub open spec fn anonymous_refusal() -> Seq<char> {
    "Error: Anonymous principal is not allowed"@
}

/// What a caller other than the owner is told.
pub open spec fn owner_refusal() -> Seq<char> {
    "Error: Only the owner can call this action."@
}

/// Lets every caller through but the anonymous one.
pub fn anonymous_guard(caller: &Principal) -> (verdict: Result<(), String>)
    ensures
        verdict.is_err() == (caller@ == Principal::anonymous_bytes()),
        verdict.is_err() ==> verdict.unwrap_err()@ == anonymous_refusal(),
{
    if caller.same_as(&Principal::anonymous()) {
        Err("Error: Anonymous principal is not allowed".to_owned())
    } else {
        Ok(())
    }
}

/// Lets only the owner of the service through.
pub fn owner_guard(state: &UserState, caller: &Principal) -> (verdict: Result<(), String>)
    ensures
        verdict.is_ok() == (caller@ == state@.owner),
        verdict.is_err() ==> verdict.unwrap_err()@ == owner_refusal(),
{
    if caller.same_as(&state.owner) {
        Ok(())
    } else {
        Err("Error: Only the owner can call this action.".to_owned())
    }
}

} // verus!
