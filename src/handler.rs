//! The record lifecycle: a non-empty payload creates the record it encodes at
//! its derived address, an empty one closes the record held at an address.

use crate::address::{derive_address, is_system_program, program_address, same_key, system_program_key, Key};
use crate::codec::{decoded, encoding, field_at, lemma_round_trip, Image};
use vstd::prelude::*;
use vstd::utf8::*;

verus! {

broadcast use {encode_utf8_valid_utf8, encode_utf8_decode_utf8};

/// Why an invocation was refused.
#[derive(Debug, Clone, Copy, PartialEq, Eq, Structural)]
pub enum HandlerError {
    /// The system program's key is wrong, the payload is not a record, no
    /// address can be derived from its title, or the target is not that address.
    InvalidArgument,
    /// The signer's key and the stored title do not derive the record's address.
    IllegalOwner,
    /// The stored bytes of a record to close are not a record.
    DecodeError,
    /// The signer's balance cannot hold the record's balance as well.
    ArithmeticOverflow,
    /// The account is too small for the record's encoding.
    AccountDataTooSmall,
}

/// An account as the handler sees it: its key, its balance in lamports and
/// its stored bytes.
#[derive(Debug)]
pub struct Account {
    pub key: Key,
    pub lamports: u64,
    pub data: Vec<u8>,
}

/// What an invocation does, told by the payload's length.
#[derive(Debug, Clone, Copy, PartialEq, Eq, Structural)]
pub enum OperationKind {
    Create,
    Close,
}

/// The account that the runtime is asked to create for a record, signed for
/// by the seeds `[payer, title bytes, [bump]]` under `owner_program`.
#[derive(Debug)]
pub struct CreateAccountRequest {
    pub payer: Key,
    pub target: Key,
    pub lamports: u64,
    pub space: u64,
    pub owner_program: Key,
    pub bump: u8,
    pub record: Image,
}

/// An empty payload closes, any other creates.
pub fn operation_kind(payload: &[u8]) -> (r: OperationKind)
    ensures
        r == (if payload@.len() == 0 {
            OperationKind::Close
        } else {
            OperationKind::Create
        }),
{
    if payload.len() == 0 {
        OperationKind::Close
    } else {
        OperationKind::Create
    }
}

/// Why creating the record encoded in `payload` for `signer` at `target` is
/// refused, if it is.
pub open spec fn create_error(program: Seq<u8>, signer: Seq<u8>, target: Seq<u8>, payload: Seq<
    u8,
>) -> Option<HandlerError> {
    match decoded(payload) {
        None => Some(HandlerError::InvalidArgument),
        Some(rec) => match program_address(signer, encode_utf8(rec.0), program) {
            None => Some(HandlerError::InvalidArgument),
            Some((a, _)) => if a == target {
                None
            } else {
                Some(HandlerError::InvalidArgument)
            },
        },
    }
}

/// Whether `req` asks for the account that a record encoded in `payload` needs.
pub open spec fn creates_record(
    req: CreateAccountRequest,
    program: Key,
    signer: Key,
    target: Key,
    payload: Seq<u8>,
    rent_lamports: u64,
) -> bool {
    &&& req.payer == signer
    &&& req.target == target
    &&& req.lamports == rent_lamports
    &&& req.space == payload.len()
    &&& req.owner_program == program
    &&& decoded(payload) == Some(req.record@)
    &&& program_address(signer@, encode_utf8(req.record.title@), program@) == Some(
        (target@, req.bump),
    )
}

/// Decides a creation: decodes the payload and checks that `target` is the
/// address derived from the signer and the record's title. On success it
/// returns the account to create, of exactly the payload's size and funded
/// with `rent_lamports`.
pub fn plan_create(
    program_id: &Key,
    signer: &Key,
    target: &Key,
    payload: &[u8],
    rent_lamports: u64,
) -> (r: Result<CreateAccountRequest, HandlerError>)
    ensures
        create_error(program_id@, signer@, target@, payload@) matches Some(e) ==> r == Err::<
            CreateAccountRequest,
            HandlerError,
        >(e),
        create_error(program_id@, signer@, target@, payload@) is None ==> (r matches Ok(req)
            && creates_record(req, *program_id, *signer, *target, payload@, rent_lamports)),
{
    let record = match Image::decode(payload) {
        Ok(rec) => rec,
        Err(_) => return Err(HandlerError::InvalidArgument),
    };
    let (address, bump) = match derive_address(signer, record.title.as_str().as_bytes(), program_id) {
        Some(found) => found,
        None => return Err(HandlerError::InvalidArgument),
    };
    if !same_key(&address, target) {
        return Err(HandlerError::InvalidArgument);
    }
    Ok(
        CreateAccountRequest {
            payer: *signer,
            target: *target,
            lamports: rent_lamports,
            space: payload.len() as u64,
            owner_program: *program_id,
            bump,
            record,
        },
    )
}

/// Why closing the record stored in `pda` for `signer` is refused, if it is.
pub open spec fn close_error(program: Seq<u8>, signer: &Account, pda: &Account) -> Option<
    HandlerError,
> {
    match decoded(pda.data@) {
        None => Some(HandlerError::DecodeError),
        Some(rec) => match program_address(signer.key@, encode_utf8(rec.0), program) {
            None => Some(HandlerError::InvalidArgument),
            Some((a, _)) => if a != pda.key@ {
                Some(HandlerError::IllegalOwner)
            } else if signer.lamports + pda.lamports > u64::MAX {
                Some(HandlerError::ArithmeticOverflow)
            } else {
                None
            },
        },
    }
}

/// Whether `after` is `before` with its balance emptied and every stored
/// byte zero.
pub open spec fn drained(before: &Account, after: &Account) -> bool {
    &&& after.key == before.key
    &&& after.lamports == 0
    &&& after.data@ == Seq::new(before.data@.len(), |i: int| 0u8)
}

/// Closes the record stored in `pda`: only where the signer's key and the
/// stored title derive `pda`'s address does the whole balance move to the
/// signer and every stored byte become zero. A refusal changes nothing.
pub fn close_account(signer: &mut Account, pda: &mut Account, program_id: &Key) -> (r: Result<
    (),
    HandlerError,
>)
    ensures
        r == (match close_error(program_id@, old(signer), old(pda)) {
            Some(e) => Err(e),
            None => Ok(()),
        }),
        r is Err ==> *final(signer) == *old(signer) && *final(pda) == *old(pda),
        r is Ok ==> final(signer).key == old(signer).key && final(signer).data == old(
            signer,
        ).data && final(signer).lamports == old(signer).lamports + old(pda).lamports && drained(
            old(pda),
            final(pda),
        ),
{
    let record = match Image::decode(pda.data.as_slice()) {
        Ok(rec) => rec,
        Err(_) => return Err(HandlerError::DecodeError),
    };
    let (address, _bump) = match derive_address(
        &signer.key,
        record.title.as_str().as_bytes(),
        program_id,
    ) {
        Some(found) => found,
        None => return Err(HandlerError::InvalidArgument),
    };
    if !same_key(&address, &pda.key) {
        return Err(HandlerError::IllegalOwner);
    }
    let total = match signer.lamports.checked_add(pda.lamports) {
        Some(t) => t,
        None => return Err(HandlerError::ArithmeticOverflow),
    };
    signer.lamports = total;
    pda.lamports = 0;
    let len = pda.data.len();
    let mut i: usize = 0;
    while i < len
        invariant
            i <= len == pda.data@.len() == old(pda).data@.len(),
            pda.key == old(pda).key,
            pda.lamports == 0,
            forall|j: int| 0 <= j < i ==> pda.data@[j] == 0u8,
        decreases len - i,
    {
        pda.data.set(i, 0u8);
        i = i + 1;
    }
    assert(pda.data@ =~= Seq::new(old(pda).data@.len(), |j: int| 0u8));
    Ok(())
}

/// Writes the encoding of `record` at the start of `pda`'s bytes, leaving the
/// rest as it was; refused, with nothing changed, where it does not fit.
pub fn store_record(pda: &mut Account, record: &Image) -> (r: Result<(), HandlerError>)
    ensures
        r is Err <==> encoding(record@).len() > old(pda).data@.len(),
        r is Err ==> r == Err::<(), HandlerError>(HandlerError::AccountDataTooSmall) && *final(pda)
            == *old(pda),
        r is Ok ==> final(pda).key == old(pda).key && final(pda).lamports == old(pda).lamports
            && final(pda).data@ == encoding(record@) + old(pda).data@.subrange(
            encoding(record@).len() as int,
            old(pda).data@.len() as int,
        ),
{
    let bytes = record.encode();
    if bytes.len() > pda.data.len() {
        return Err(HandlerError::AccountDataTooSmall);
    }
    let mut i: usize = 0;
    while i < bytes.len()
        invariant
            i <= bytes@.len() <= pda.data@.len() == old(pda).data@.len(),
            bytes@ == encoding(record@),
            pda.key == old(pda).key,
            pda.lamports == old(pda).lamports,
            forall|j: int| 0 <= j < i ==> pda.data@[j] == bytes@[j],
            forall|j: int| i <= j < pda.data@.len() ==> pda.data@[j] == old(pda).data@[j],
        decreases bytes@.len() - i,
    {
        pda.data.set(i, bytes[i]);
        i = i + 1;
    }
    assert(pda.data@ =~= encoding(record@) + old(pda).data@.subrange(
        bytes@.len() as int,
        old(pda).data@.len() as int,
    ));
    Ok(())
}

/// Creating a record from a payload and then reading the account back: the
/// record's encoding fits in an account of the payload's size, and the
/// account's bytes, once it is written there, decode to the record.
pub proof fn lemma_create_then_read(payload: Seq<u8>, data: Seq<u8>, rec: (Seq<char>, Seq<char>))
    requires
        decoded(payload) == Some(rec),
        data.len() == payload.len(),
    ensures
        encoding(rec).len() <= data.len(),
        decoded(encoding(rec) + data.subrange(encoding(rec).len() as int, data.len() as int))
            == Some(rec),
{
    let (t, p) = field_at(payload, 0).unwrap();
    let (u, q) = field_at(payload, p).unwrap();
    decode_utf8_encode_utf8(payload.subrange(8, p));
    decode_utf8_encode_utf8(payload.subrange(p + 8, q));
    assert(encoding(rec).len() == q);
    lemma_round_trip(rec, data.subrange(encoding(rec).len() as int, data.len() as int));
}

/// Only the owner can close a record: where the stored title and another
/// signer's key derive an address other than the record's, closing is refused
/// as an illegal owner, and by `close_account` nothing changes.
pub proof fn lemma_close_needs_owner(
    program: Seq<u8>,
    owner: Seq<u8>,
    signer: &Account,
    pda: &Account,
    rec: (Seq<char>, Seq<char>),
)
    requires
        decoded(pda.data@) == Some(rec),
        program_address(owner, encode_utf8(rec.0), program) matches Some((a, _)) && a == pda.key@,
        program_address(signer.key@, encode_utf8(rec.0), program) matches Some((b, _)) && b
            != pda.key@,
    ensures
        close_error(program, signer, pda) == Some(HandlerError::IllegalOwner),
{
}

/// Handles one invocation with the signer, the target account and the key
/// given as the system program's. The system program's key is checked first;
/// then an empty payload closes the record in `target`, and any other asks
/// for the creation of the record it encodes, which is returned.
pub fn process_transaction(
    program_id: &Key,
    signer: &mut Account,
    target: &mut Account,
    system_program: &Key,
    data: &[u8],
    rent_lamports: u64,
) -> (r: Result<Option<CreateAccountRequest>, HandlerError>)
    ensures
        system_program@ != system_program_key() ==> r is Err && r->Err_0
            == HandlerError::InvalidArgument,
        system_program@ == system_program_key() && data@.len() == 0 ==> (r is Err <==> close_error(
            program_id@,
            old(signer),
            old(target),
        ) is Some) && (r matches Err(e) ==> close_error(program_id@, old(signer), old(target))
            == Some(e)) && (r is Ok ==> r->Ok_0 is None && final(signer).key == old(signer).key
            && final(signer).data == old(signer).data && final(signer).lamports == old(
            signer,
        ).lamports + old(target).lamports && drained(old(target), final(target))),
        system_program@ == system_program_key() && data@.len() > 0 ==> (r is Err <==> create_error(
            program_id@,
            old(signer).key@,
            old(target).key@,
            data@,
        ) is Some) && (r matches Err(e) ==> create_error(
            program_id@,
            old(signer).key@,
            old(target).key@,
            data@,
        ) == Some(e)) && (r matches Ok(Some(req)) ==> creates_record(
            req,
            *program_id,
            old(signer).key,
            old(target).key,
            data@,
            rent_lamports,
        )) && !(r matches Ok(None)),
        r is Err || data@.len() > 0 ==> *final(signer) == *old(signer) && *final(target) == *old(
            target,
        ),
{
    if !is_system_program(system_program) {
        return Err(HandlerError::InvalidArgument);
    }
    match operation_kind(data) {
        OperationKind::Close => {
            close_account(signer, target, program_id)?;
            Ok(None)
        },
        OperationKind::Create => {
            let req = plan_create(program_id, &signer.key, &target.key, data, rent_lamports)?;
            Ok(Some(req))
        },
    }
}

} // verus!
