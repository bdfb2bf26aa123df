//! The shortening service: turn a create request into a stored link and a
//! code into a redirect target. The in-memory store is driven end to end
//! here; for a persistent store the same decisions are exposed as pure
//! step functions that an I/O loop can run.
use vstd::prelude::*;
use vstd::string::StrSliceExecFns;
use vstd::string::StringExecFns;

use crate::error::AppError;
use crate::response::AppResponse;
use crate::store::{InsertError, MemStore};
use crate::{
    all_code_chars, generate_code, is_base62, normalize_code, supplied_code, valid_code,
    MAX_CODE_LEN, MAX_GENERATE_ATTEMPTS,
};

verus! {

/// The full short URL: the base URL, a slash, the code.
pub open spec fn short_url_of(base: Seq<char>, code: Seq<char>) -> Seq<char> {
    base + "/"@ + code
}

/// Concatenates the configured base URL, `/` and the code.
pub fn compose_short_url(base_url: &str, code: &String) -> (r: String)
    ensures
        r@ == short_url_of(base_url@, code@),
{
    base_url.to_owned().concat("/").concat(code.as_str())
}

/// What a create request that generated its code may leave behind: either
/// some fresh valid code of the configured length was bound to `url`, or
/// every candidate collided, the store is untouched, and it indeed holds
/// at least one code a candidate could have collided with.
pub open spec fn generated_outcome(
    before: Map<Seq<char>, Seq<char>>,
    after: Map<Seq<char>, Seq<char>>,
    base: Seq<char>,
    url: Seq<char>,
    code_len: nat,
    r: Result<AppResponse, AppError>,
) -> bool {
    match r {
        Result::Ok(AppResponse::Shorten(s, rc)) => {
            &&& rc@.len() == code_len
            &&& all_code_chars(rc@)
            &&& !before.contains_key(rc@)
            &&& after == before.insert(rc@, url)
            &&& s@ == short_url_of(base, rc@)
        },
        Result::Ok(_) => false,
        Result::Err(AppError::Conflict(_)) => {
            &&& after == before
            &&& exists|c: Seq<char>|
                before.contains_key(c) && c.len() == code_len && all_code_chars(c)
        },
        Result::Err(_) => false,
    }
}

/// Law: generation is owed success wherever no collision is possible —
/// a create with no supplied code can only be refused when the store
/// already holds some code of the generated length and alphabet, so
/// against a store with no such code (an empty one, say) it succeeds.
pub proof fn lemma_generation_owed_success(
    before: Map<Seq<char>, Seq<char>>,
    after: Map<Seq<char>, Seq<char>>,
    base: Seq<char>,
    url: Seq<char>,
    code_len: nat,
    r: Result<AppResponse, AppError>,
)
    requires
        generated_outcome(before, after, base, url, code_len, r),
        forall|c: Seq<char>|
            before.contains_key(c) ==> !(c.len() == code_len && all_code_chars(c)),
    ensures
        r is Ok,
{
    if r is Err {
        let c = choose|c: Seq<char>|
            before.contains_key(c) && c.len() == code_len && all_code_chars(c);
        assert(before.contains_key(c));
    }
}

/// The create operation over the in-memory store.
///
/// A supplied code (after normalization) is validated and then claimed
/// atomically: too long or outside the alphabet is rejected, a taken code
/// conflicts and leaves the store unchanged, and otherwise the code is
/// bound to `url` exactly as supplied. With no code supplied, a fresh
/// code of `code_len` characters is generated and claimed, retrying on
/// collision up to the attempt budget.
pub fn shorten(
    store: &mut MemStore,
    base_url: &str,
    url: &String,
    code: Option<String>,
    code_len: usize,
) -> (r: Result<AppResponse, AppError>)
    requires
        old(store).wf(),
        1 <= code_len <= MAX_CODE_LEN,
    ensures
        final(store).wf(),
        match supplied_code(code) {
            Option::Some(c) => {
                if !valid_code(c) {
                    &&& r matches Result::Err(AppError::BadRequest(_))
                    &&& final(store)@ == old(store)@
                } else if old(store)@.contains_key(c) {
                    &&& r matches Result::Err(AppError::Conflict(_))
                    &&& final(store)@ == old(store)@
                } else {
                    &&& r matches Result::Ok(AppResponse::Shorten(s, rc)) && rc@ == c && s@
                        == short_url_of(base_url@, c)
                    &&& final(store)@ == old(store)@.insert(c, url@)
                }
            },
            Option::None => generated_outcome(
                old(store)@,
                final(store)@,
                base_url@,
                url@,
                code_len as nat,
                r,
            ),
        },
{
    match normalize_code(code) {
        Option::Some(c) => {
            match check_supplied_code(&c) {
                Result::Err(e) => {
                    return Result::Err(e);
                },
                Result::Ok(()) => {},
            }
            match store.insert(c.clone(), url.clone()) {
                Result::Ok(()) => {
                    let short = compose_short_url(base_url, &c);
                    Result::Ok(AppResponse::Shorten(short, c))
                },
                Result::Err(InsertError::DuplicateCode) => Result::Err(
                    AppError::Conflict("code already exists".to_owned()),
                ),
                Result::Err(InsertError::StorageFailure) => Result::Err(AppError::Internal),
            }
        },
        Option::None => generate_and_insert(store, base_url, url, code_len),
    }
}

/// Validates a caller-supplied code that normalization has already
/// handed through: it must not exceed `MAX_CODE_LEN` characters and must
/// stay inside the 62-symbol alphabet. Each violation is rejected as
/// `BadRequest`.
pub fn check_supplied_code(code: &String) -> (r: Result<(), AppError>)
    ensures
        match r {
            Result::Ok(()) => code@.len() <= MAX_CODE_LEN && all_code_chars(code@),
            Result::Err(e) => {
                &&& code@.len() > MAX_CODE_LEN || !all_code_chars(code@)
                &&& e matches AppError::BadRequest(_)
            },
        },
{
    if code.as_str().unicode_len() > MAX_CODE_LEN {
        return Result::Err(AppError::BadRequest("code too long (max 32)".to_owned()));
    }
    if !is_base62(code.as_str()) {
        return Result::Err(AppError::BadRequest("invalid code (base62 only)".to_owned()));
    }
    Result::Ok(())
}

/// The generation retry loop over the in-memory store: draw a candidate,
/// try to claim it, and on a collision draw again, up to the attempt
/// budget. Only collisions are retried.
pub fn generate_and_insert(
    store: &mut MemStore,
    base_url: &str,
    url: &String,
    code_len: usize,
) -> (r: Result<AppResponse, AppError>)
    requires
        old(store).wf(),
        1 <= code_len <= MAX_CODE_LEN,
    ensures
        final(store).wf(),
        generated_outcome(old(store)@, final(store)@, base_url@, url@, code_len as nat, r),
{
    let mut attempts: usize = 0;
    while attempts < MAX_GENERATE_ATTEMPTS
        invariant
            store.wf(),
            store@ == old(store)@,
            1 <= code_len <= MAX_CODE_LEN,
            attempts >= 1 ==> exists|c: Seq<char>|
                old(store)@.contains_key(c) && c.len() == code_len as nat && all_code_chars(c),
        decreases MAX_GENERATE_ATTEMPTS - attempts,
    {
        let code = generate_code(code_len);
        match store.insert(code.clone(), url.clone()) {
            Result::Ok(()) => {
                let short = compose_short_url(base_url, &code);
                return Result::Ok(AppResponse::Shorten(short, code));
            },
            Result::Err(_) => {
                proof {
                    assert(old(store)@.contains_key(code@) && code@.len() == code_len as nat
                        && all_code_chars(code@));
                }
            },
        }
        attempts += 1;
    }
    Result::Err(AppError::Conflict("unable to generate unique code".to_owned()))
}

/// The resolve operation: a single read of the store. A stored code
/// yields a permanent redirect to exactly its URL; an unknown code is
/// `NotFound`.
pub fn redirect(store: &MemStore, code: &String) -> (r: Result<AppResponse, AppError>)
    requires
        store.wf(),
    ensures
        match r {
            Result::Ok(AppResponse::Redirect(to)) => store@.contains_key(code@) && to@
                == store@[code@],
            Result::Ok(_) => false,
            Result::Err(AppError::NotFound(n)) => !store@.contains_key(code@) && n is None,
            Result::Err(_) => false,
        },
{
    resolve_lookup(store.lookup(code))
}

/// What the service answers once the store has been read: a found URL is
/// a permanent redirect to exactly that URL, an absent one is `NotFound`.
pub fn resolve_lookup(found: Option<String>) -> (r: Result<AppResponse, AppError>)
    ensures
        match found {
            Option::Some(to) => r matches Result::Ok(AppResponse::Redirect(t)) && t@ == to@,
            Option::None => r matches Result::Err(AppError::NotFound(n)) && n is None,
        },
{
    match found {
        Option::Some(to) => Result::Ok(AppResponse::Redirect(to)),
        Option::None => Result::Err(AppError::NotFound(Option::None)),
    }
}

/// What the generation retry loop decides after one insert attempt.
pub enum RetryDecision {
    /// The candidate was claimed; answer with it.
    Accept,
    /// The candidate collided and budget remains; draw a fresh one.
    RetryAgain,
    /// Stop with the carried error.
    GiveUp(AppError),
}

/// One decision of the generation retry loop, for a store whose inserts
/// run elsewhere (a persistent store behind I/O): a success is accepted,
/// a storage failure aborts at once as `Internal`, and a collision is
/// retried until the attempt budget is spent, then surfaced as a
/// conflict.
pub fn generation_step(attempts_done: usize, outcome: &Result<(), InsertError>) -> (d:
    RetryDecision)
    requires
        attempts_done < MAX_GENERATE_ATTEMPTS,
    ensures
        match outcome {
            Result::Ok(()) => d is Accept,
            Result::Err(InsertError::StorageFailure) => d matches RetryDecision::GiveUp(
                AppError::Internal,
            ),
            Result::Err(InsertError::DuplicateCode) => {
                if attempts_done + 1 < MAX_GENERATE_ATTEMPTS {
                    d is RetryAgain
                } else {
                    d matches RetryDecision::GiveUp(AppError::Conflict(_))
                }
            },
        },
{
    match outcome {
        Result::Ok(()) => RetryDecision::Accept,
        Result::Err(InsertError::StorageFailure) => RetryDecision::GiveUp(AppError::Internal),
        Result::Err(InsertError::DuplicateCode) => {
            if attempts_done + 1 < MAX_GENERATE_ATTEMPTS {
                RetryDecision::RetryAgain
            } else {
                RetryDecision::GiveUp(AppError::Conflict("unable to generate unique code".to_owned()))
            }
        },
    }
}

/// What the service answers when the store has decided an insert of a
/// caller-supplied, already validated code: a claimed code is answered
/// with the composed short URL, a duplicate is a conflict, and any other
/// storage failure is an internal error.
pub fn supplied_insert_result(
    code: String,
    base_url: &str,
    outcome: &Result<(), InsertError>,
) -> (r: Result<AppResponse, AppError>)
    ensures
        match outcome {
            Result::Ok(()) => r matches Result::Ok(AppResponse::Shorten(s, rc)) && rc@ == code@
                && s@ == short_url_of(base_url@, code@),
            Result::Err(InsertError::DuplicateCode) => r matches Result::Err(
                AppError::Conflict(_),
            ),
            Result::Err(InsertError::StorageFailure) => r matches Result::Err(AppError::Internal),
        },
{
    match outcome {
        Result::Ok(()) => {
            let short = compose_short_url(base_url, &code);
            Result::Ok(AppResponse::Shorten(short, code))
        },
        Result::Err(InsertError::DuplicateCode) => Result::Err(
            AppError::Conflict("code already exists".to_owned()),
        ),
        Result::Err(InsertError::StorageFailure) => Result::Err(AppError::Internal),
    }
}

/// Law: a create that binds a fresh valid code leaves a store in which a
/// resolve of that code answers exactly the URL it was created with.
/// `shorten` ensures the successful store is `before.insert(code, url)`;
/// `redirect` answers `store@[code]` for a stored code.
pub proof fn lemma_create_then_resolve(
    before: Map<Seq<char>, Seq<char>>,
    code: Seq<char>,
    url: Seq<char>,
)
    requires
        valid_code(code),
        !before.contains_key(code),
    ensures
        before.insert(code, url).contains_key(code),
        before.insert(code, url)[code] == url,
{
}

/// Law: after one create wins a code, the store holds the winner's URL
/// under it, and by `shorten`'s contract every later create of the same
/// code conflicts and leaves the store unchanged — so the winner's
/// binding survives.
pub proof fn lemma_winner_binding_survives(
    before: Map<Seq<char>, Seq<char>>,
    code: Seq<char>,
    winner_url: Seq<char>,
)
    requires
        !before.contains_key(code),
    ensures
        before.insert(code, winner_url).contains_key(code),
        before.insert(code, winner_url)[code] == winner_url,
{
}

} // verus!
