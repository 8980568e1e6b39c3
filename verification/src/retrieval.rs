//! What retrieval hands to context selection: errors, limits and the shared
//! work budget.

use vstd::prelude::*;

verus! {

/// The longest retrieval document, in bytes.
pub const MAX_RETRIEVAL_DOCUMENT_BYTES: usize = 65_536;

/// The greatest number of candidates that one query looks at.
pub const MAX_CANDIDATE_COUNT: usize = 10_000;

/// The greatest number of results that one ranking keeps.
pub const MAX_CONTEXT_RESULT_LIMIT: usize = 256;

/// How a task query is matched.
#[derive(Debug, Clone, Copy, PartialEq, Eq, Structural)]
pub enum RetrievalMode {
    LexicalOnly,
    Embedded,
}

/// A kind of work that the shared budget counts.
#[derive(Debug, Clone, Copy, PartialEq, Eq, Structural)]
pub enum RetrievalWorkKind {
    CandidateBytes,
    DocumentBytes,
    LexicalBytes,
    ProviderCalls,
    ProviderInputBytes,
}

/// A retrieval failure.
#[derive(Debug, Clone, Copy, PartialEq, Eq, Structural)]
pub enum RetrievalError {
    EmptyRequest,
    ComponentTooLong { actual: usize, maximum: usize },
    IdentifierTooLong { actual: usize, maximum: usize },
    ControlCharacter,
    RetrievalDocumentTooLong { actual: usize, maximum: usize },
    CandidateCountExceeded { actual: usize, maximum: usize },
    ResultLimitOutOfRange { requested: usize, minimum: usize, maximum: usize },
    WorkBudgetExceeded { kind: RetrievalWorkKind, attempted: usize, maximum: usize },
    EmbeddingNotConfigured,
    EmbeddingDescriptorMismatch,
    EmbeddingDimensionMismatch,
    NonFiniteEmbeddingValue { index: usize },
    ZeroEmbeddingVector,
    ProviderFailure,
}

/// The sum of two counts, held at the greatest count.
pub open spec fn capped_sum(a: usize, b: usize) -> usize {
    if a + b > usize::MAX {
        usize::MAX
    } else {
        (a + b) as usize
    }
}

/// Refuses more candidates than one query may look at.
pub fn check_candidate_count(count: usize) -> (r: Result<(), RetrievalError>)
    ensures
        count_outcome(count, r),
        count <= MAX_CANDIDATE_COUNT ==> r is Ok,
        count > MAX_CANDIDATE_COUNT ==> r == Err::<(), RetrievalError>(
            RetrievalError::CandidateCountExceeded { actual: count, maximum: MAX_CANDIDATE_COUNT },
        ),
{
    if count > MAX_CANDIDATE_COUNT {
        return Err(
            RetrievalError::CandidateCountExceeded { actual: count, maximum: MAX_CANDIDATE_COUNT },
        );
    }
    Ok(())
}

/// The number of results that a ranking keeps, between one and the maximum.
#[derive(Debug, Clone, Copy, PartialEq, Eq, Structural)]
pub struct ContextResultLimit {
    value: usize,
}

impl ContextResultLimit {
    pub closed spec fn value(self) -> usize {
        self.value
    }

    #[verifier::type_invariant]
    pub closed spec fn in_range(self) -> bool {
        1 <= self.value <= MAX_CONTEXT_RESULT_LIMIT
    }

    pub fn new(requested: usize) -> (r: Result<ContextResultLimit, RetrievalError>)
        ensures
            limit_outcome(requested, r),
            1 <= requested <= MAX_CONTEXT_RESULT_LIMIT ==> r is Ok && r->Ok_0.value() == requested,
            !(1 <= requested <= MAX_CONTEXT_RESULT_LIMIT) ==> r == Err::<
                ContextResultLimit,
                RetrievalError,
            >(
                RetrievalError::ResultLimitOutOfRange {
                    requested,
                    minimum: 1,
                    maximum: MAX_CONTEXT_RESULT_LIMIT,
                },
            ),
    {
        if requested < 1 || requested > MAX_CONTEXT_RESULT_LIMIT {
            return Err(
                RetrievalError::ResultLimitOutOfRange {
                    requested,
                    minimum: 1,
                    maximum: MAX_CONTEXT_RESULT_LIMIT,
                },
            );
        }
        Ok(ContextResultLimit { value: requested })
    }

    pub fn get(&self) -> (n: usize)
        ensures
            n == self.value(),
            1 <= n <= MAX_CONTEXT_RESULT_LIMIT,
    {
        proof {
            use_type_invariant(*self);
        }
        self.value
    }
}

/// Cumulative retrieval work, with a ceiling for each kind that selection
/// charges.
#[derive(Debug, Clone, Copy, PartialEq, Eq, Structural)]
pub struct RetrievalWorkBudget {
    pub candidate_bytes: usize,
    pub document_bytes: usize,
    pub lexical_bytes: usize,
    pub max_candidate_bytes: usize,
    pub max_document_bytes: usize,
    pub max_lexical_bytes: usize,
}

/// What charging `amount` against `used` under `maximum` leaves: the new count,
/// or the refusal.
pub open spec fn charged(
    kind: RetrievalWorkKind,
    used: usize,
    amount: usize,
    maximum: usize,
) -> Result<usize, RetrievalError> {
    let attempted = capped_sum(used, amount);
    if attempted > maximum {
        Err(RetrievalError::WorkBudgetExceeded { kind, attempted, maximum })
    } else {
        Ok(attempted)
    }
}

fn charge(kind: RetrievalWorkKind, used: usize, amount: usize, maximum: usize) -> (r: Result<
    usize,
    RetrievalError,
>)
    ensures
        r == charged(kind, used, amount, maximum),
{
    let attempted: usize = used.saturating_add(amount);
    if attempted > maximum {
        return Err(RetrievalError::WorkBudgetExceeded { kind, attempted, maximum });
    }
    Ok(attempted)
}

impl RetrievalWorkBudget {
    /// The budget after `bytes` more candidate bytes.
    pub open spec fn with_candidate_bytes(self, bytes: usize) -> Result<
        RetrievalWorkBudget,
        RetrievalError,
    > {
        match charged(
            RetrievalWorkKind::CandidateBytes,
            self.candidate_bytes,
            bytes,
            self.max_candidate_bytes,
        ) {
            Ok(n) => Ok(RetrievalWorkBudget { candidate_bytes: n, ..self }),
            Err(e) => Err(e),
        }
    }

    /// The budget after `bytes` more document bytes.
    pub open spec fn with_document_bytes(self, bytes: usize) -> Result<
        RetrievalWorkBudget,
        RetrievalError,
    > {
        match charged(
            RetrievalWorkKind::DocumentBytes,
            self.document_bytes,
            bytes,
            self.max_document_bytes,
        ) {
            Ok(n) => Ok(RetrievalWorkBudget { document_bytes: n, ..self }),
            Err(e) => Err(e),
        }
    }

    /// The budget after `bytes` more lexical bytes.
    pub open spec fn with_lexical_bytes(self, bytes: usize) -> Result<
        RetrievalWorkBudget,
        RetrievalError,
    > {
        match charged(
            RetrievalWorkKind::LexicalBytes,
            self.lexical_bytes,
            bytes,
            self.max_lexical_bytes,
        ) {
            Ok(n) => Ok(RetrievalWorkBudget { lexical_bytes: n, ..self }),
            Err(e) => Err(e),
        }
    }

    /// An unused budget with the given ceilings.
    pub fn with_limits(
        max_candidate_bytes: usize,
        max_document_bytes: usize,
        max_lexical_bytes: usize,
    ) -> (r: RetrievalWorkBudget)
        ensures
            r == (RetrievalWorkBudget {
                candidate_bytes: 0,
                document_bytes: 0,
                lexical_bytes: 0,
                max_candidate_bytes,
                max_document_bytes,
                max_lexical_bytes,
            }),
    {
        RetrievalWorkBudget {
            candidate_bytes: 0,
            document_bytes: 0,
            lexical_bytes: 0,
            max_candidate_bytes,
            max_document_bytes,
            max_lexical_bytes,
        }
    }

    /// Charges candidate bytes; a refused charge changes nothing.
    pub fn charge_candidate_bytes(&mut self, bytes: usize) -> (r: Result<(), RetrievalError>)
        ensures
            match old(self).with_candidate_bytes(bytes) {
                Ok(b) => r is Ok && *final(self) == b,
                Err(e) => r == Err::<(), RetrievalError>(e) && *final(self) == *old(self),
            },
    {
        match charge(
            RetrievalWorkKind::CandidateBytes,
            self.candidate_bytes,
            bytes,
            self.max_candidate_bytes,
        ) {
            Ok(n) => {
                self.candidate_bytes = n;
                Ok(())
            },
            Err(e) => Err(e),
        }
    }

    /// Charges document bytes; a refused charge changes nothing.
    pub fn charge_document_bytes(&mut self, bytes: usize) -> (r: Result<(), RetrievalError>)
        ensures
            match old(self).with_document_bytes(bytes) {
                Ok(b) => r is Ok && *final(self) == b,
                Err(e) => r == Err::<(), RetrievalError>(e) && *final(self) == *old(self),
            },
    {
        match charge(
            RetrievalWorkKind::DocumentBytes,
            self.document_bytes,
            bytes,
            self.max_document_bytes,
        ) {
            Ok(n) => {
                self.document_bytes = n;
                Ok(())
            },
            Err(e) => Err(e),
        }
    }

    /// Charges lexical bytes; a refused charge changes nothing.
    pub fn charge_lexical_bytes(&mut self, bytes: usize) -> (r: Result<(), RetrievalError>)
        ensures
            match old(self).with_lexical_bytes(bytes) {
                Ok(b) => r is Ok && *final(self) == b,
                Err(e) => r == Err::<(), RetrievalError>(e) && *final(self) == *old(self),
            },
    {
        match charge(
            RetrievalWorkKind::LexicalBytes,
            self.lexical_bytes,
            bytes,
            self.max_lexical_bytes,
        ) {
            Ok(n) => {
                self.lexical_bytes = n;
                Ok(())
            },
            Err(e) => Err(e),
        }
    }
}

/// Charging adds what is charged to its own count and to no other, up to the
/// ceiling of that count and no further; the refusal names the kind, what was
/// attempted and the ceiling.
pub proof fn charges_add_up(b: RetrievalWorkBudget, bytes: usize)
    ensures
        b.candidate_bytes + bytes <= b.max_candidate_bytes ==> b.with_candidate_bytes(bytes) is Ok
            && b.with_candidate_bytes(bytes)->Ok_0 == (RetrievalWorkBudget {
            candidate_bytes: (b.candidate_bytes + bytes) as usize,
            ..b
        }),
        b.candidate_bytes + bytes > b.max_candidate_bytes && b.max_candidate_bytes < usize::MAX ==> (
        b.with_candidate_bytes(bytes) matches Err(
            RetrievalError::WorkBudgetExceeded { kind, attempted, maximum },
        ) && kind == RetrievalWorkKind::CandidateBytes && maximum == b.max_candidate_bytes
            && maximum < attempted <= b.candidate_bytes + bytes),
        b.document_bytes + bytes <= b.max_document_bytes ==> b.with_document_bytes(bytes) is Ok
            && b.with_document_bytes(bytes)->Ok_0 == (RetrievalWorkBudget {
            document_bytes: (b.document_bytes + bytes) as usize,
            ..b
        }),
        b.document_bytes + bytes > b.max_document_bytes && b.max_document_bytes < usize::MAX ==> (
        b.with_document_bytes(bytes) matches Err(
            RetrievalError::WorkBudgetExceeded { kind, attempted, maximum },
        ) && kind == RetrievalWorkKind::DocumentBytes && maximum == b.max_document_bytes && maximum
            < attempted <= b.document_bytes + bytes),
        b.lexical_bytes + bytes <= b.max_lexical_bytes ==> b.with_lexical_bytes(bytes) is Ok
            && b.with_lexical_bytes(bytes)->Ok_0 == (RetrievalWorkBudget {
            lexical_bytes: (b.lexical_bytes + bytes) as usize,
            ..b
        }),
        b.lexical_bytes + bytes > b.max_lexical_bytes && b.max_lexical_bytes < usize::MAX ==> (
        b.with_lexical_bytes(bytes) matches Err(
            RetrievalError::WorkBudgetExceeded { kind, attempted, maximum },
        ) && kind == RetrievalWorkKind::LexicalBytes && maximum == b.max_lexical_bytes && maximum
            < attempted <= b.lexical_bytes + bytes),
{
}

/// The result of checking a number of candidates.
pub open spec fn count_outcome(count: usize, r: Result<(), RetrievalError>) -> bool {
    if count <= MAX_CANDIDATE_COUNT {
        r is Ok
    } else {
        r == Err::<(), RetrievalError>(
            RetrievalError::CandidateCountExceeded { actual: count, maximum: MAX_CANDIDATE_COUNT },
        )
    }
}

/// The result of asking for a number of results.
pub open spec fn limit_outcome(
    requested: usize,
    r: Result<ContextResultLimit, RetrievalError>,
) -> bool {
    if 1 <= requested <= MAX_CONTEXT_RESULT_LIMIT {
        r is Ok && r->Ok_0.value() == requested
    } else {
        r == Err::<ContextResultLimit, RetrievalError>(
            RetrievalError::ResultLimitOutOfRange {
                requested,
                minimum: 1,
                maximum: MAX_CONTEXT_RESULT_LIMIT,
            },
        )
    }
}

/// A query looks at up to 10,000 candidates and keeps between one and 256 results,
/// as many as were asked for; other numbers are refused with the bounds.
pub proof fn queries_are_bounded(
    count: usize,
    r: Result<(), RetrievalError>,
    requested: usize,
    q: Result<ContextResultLimit, RetrievalError>,
)
    requires
        count_outcome(count, r),
        limit_outcome(requested, q),
    ensures
        r is Ok <==> count <= 10_000,
        r matches Err(e) ==> e == (RetrievalError::CandidateCountExceeded {
            actual: count,
            maximum: 10_000,
        }),
        q is Ok <==> 1 <= requested <= 256,
        q is Ok ==> q->Ok_0.value() == requested,
        q matches Err(e) ==> e == (RetrievalError::ResultLimitOutOfRange {
            requested,
            minimum: 1,
            maximum: 256,
        }),
{
}

} // verus!
