//! Federations: saved coordination sets of exact discipline-model commits plus
//! their placement transforms, and their structural / safety validation.
//!
//! Transform entries are IEEE-754 binary64 values carried as bit patterns. The
//! affine-validity test is floating-point arithmetic and is decided outside the
//! library; [`Federation::validate`] receives its verdict for each member.

use vstd::prelude::*;
use crate::text::{
    debug_text, debug_quoted, dec, string_of,
    trim, is_blank, chars_of, owned, str_eq, is_ascii_alnum, is_ascii_hex, is_control,
    char_is_ascii_alnum, char_is_ascii_hex, char_is_control,
};
use crate::schema::{FEDERATION, spec_is_compatible, is_compatible};

verus! {

/// A 4x4 row-major placement transform; each entry is the bit pattern of an `f64`.
#[derive(Debug, Clone, Copy, PartialEq, Eq)]
pub struct FederationTransform {
    pub rows: [[u64; 4]; 4],
}

/// Bit pattern of `1.0_f64`.
pub const F64_ONE_BITS: u64 = 0x3FF0_0000_0000_0000;

impl FederationTransform {
    /// The identity placement: ones on the diagonal, zeros elsewhere.
    pub fn identity() -> (t: Self)
        ensures
            forall|i: int, j: int|
                0 <= i < 4 && 0 <= j < 4 ==> #[trigger] t.rows@[i]@[j] == (if i == j {
                    F64_ONE_BITS
                } else {
                    0u64
                }),
    {
        let t = FederationTransform {
            rows: [
                [F64_ONE_BITS, 0, 0, 0],
                [0, F64_ONE_BITS, 0, 0],
                [0, 0, F64_ONE_BITS, 0],
                [0, 0, 0, F64_ONE_BITS],
            ],
        };
        proof {
            assert forall|i: int, j: int| 0 <= i < 4 && 0 <= j < 4 implies #[trigger] t.rows@[i]@[j]
                == (if i == j {
                F64_ONE_BITS
            } else {
                0u64
            }) by {
                if i == 0 {
                } else if i == 1 {
                } else if i == 2 {
                } else {
                }
            }
        }
        t
    }
}

/// One discipline model placed in a federation.
#[derive(Debug, Clone, PartialEq, Eq)]
pub struct FederationMember {
    pub member_id: String,
    pub source_project_id: String,
    pub commit_hash: String,
    pub display_name: String,
    pub discipline: Option<String>,
    pub transform: FederationTransform,
    pub visible: bool,
}

/// A derived, saved coordination set of exact commits and their placements.
#[derive(Debug, Clone, PartialEq, Eq)]
pub struct Federation {
    pub schema: String,
    pub federation_id: String,
    pub name: String,
    pub created_at_unix: i64,
    pub updated_at_unix: i64,
    pub members: Vec<FederationMember>,
}

/// Compact federation row for list views.
#[derive(Debug, Clone, PartialEq, Eq)]
pub struct FederationSummary {
    pub federation_id: String,
    pub name: String,
    pub member_count: usize,
    pub visible_member_count: usize,
    pub created_at_unix: i64,
    pub updated_at_unix: i64,
}

/// Structural / safety validation failure for a [`Federation`].
#[derive(Debug, Clone, PartialEq, Eq)]
pub enum FederationValidationError {
    IncompatibleSchema { expected: &'static str, actual: String },
    MissingField(&'static str),
    UnsafeText { field: &'static str },
    TextTooLong { field: &'static str, max: usize },
    UnsafeId { field: &'static str },
    NoMembers,
    TooManyMembers { max: usize },
    InvalidCommitHash { member_id: String },
    InvalidTransform { member_id: String },
    DuplicateMemberId(String),
    DuplicateSourceCommit { source_project_id: String, commit_hash: String },
}

/// The failure with every text field taken as its characters.
pub enum FederationFailure {
    IncompatibleSchema { expected: Seq<char>, actual: Seq<char> },
    MissingField(Seq<char>),
    UnsafeText { field: Seq<char> },
    TextTooLong { field: Seq<char>, max: usize },
    UnsafeId { field: Seq<char> },
    NoMembers,
    TooManyMembers { max: usize },
    InvalidCommitHash { member_id: Seq<char> },
    InvalidTransform { member_id: Seq<char> },
    DuplicateMemberId(Seq<char>),
    DuplicateSourceCommit { source_project_id: Seq<char>, commit_hash: Seq<char> },
}

impl View for FederationValidationError {
    type V = FederationFailure;

    open spec fn view(&self) -> FederationFailure {
        match self {
            FederationValidationError::IncompatibleSchema { expected, actual } =>
                FederationFailure::IncompatibleSchema { expected: expected@, actual: actual@ },
            FederationValidationError::MissingField(f) => FederationFailure::MissingField(f@),
            FederationValidationError::UnsafeText { field } => FederationFailure::UnsafeText {
                field: field@,
            },
            FederationValidationError::TextTooLong { field, max } =>
                FederationFailure::TextTooLong { field: field@, max: *max },
            FederationValidationError::UnsafeId { field } => FederationFailure::UnsafeId {
                field: field@,
            },
            FederationValidationError::NoMembers => FederationFailure::NoMembers,
            FederationValidationError::TooManyMembers { max } => FederationFailure::TooManyMembers {
                max: *max,
            },
            FederationValidationError::InvalidCommitHash { member_id } =>
                FederationFailure::InvalidCommitHash { member_id: member_id@ },
            FederationValidationError::InvalidTransform { member_id } =>
                FederationFailure::InvalidTransform { member_id: member_id@ },
            FederationValidationError::DuplicateMemberId(m) => FederationFailure::DuplicateMemberId(
                m@,
            ),
            FederationValidationError::DuplicateSourceCommit { source_project_id, commit_hash } =>
                FederationFailure::DuplicateSourceCommit {
                source_project_id: source_project_id@,
                commit_hash: commit_hash@,
            },
        }
    }
}

pub type FedCheck = Result<(), FederationFailure>;

/// Maximum members in a single federation.
pub const MAX_MEMBERS: usize = 64;
/// Maximum length (in characters) of a federation or member display name.
pub const MAX_NAME_LEN: usize = 200;
/// Maximum length (in characters) of an optional discipline tag.
pub const MAX_DISCIPLINE_LEN: usize = 80;
/// Maximum length of an identifier.
pub const MAX_ID_LEN: usize = 120;

impl Federation {
    pub const MAX_MEMBERS: usize = 64;
    pub const MAX_NAME_LEN: usize = 200;
    pub const MAX_DISCIPLINE_LEN: usize = 80;
    pub const MAX_ID_LEN: usize = 120;
}

/// A complete 64-character commit hash of ASCII hex digits (either case).
pub open spec fn spec_is_full_commit_hash(s: Seq<char>) -> bool {
    s.len() == 64 && forall|i: int| 0 <= i < s.len() ==> is_ascii_hex(#[trigger] s[i])
}

pub open spec fn is_id_char(c: char) -> bool {
    is_ascii_alnum(c) || c == '-' || c == '_'
}

/// Non-empty, at most `MAX_ID_LEN` long, only ASCII alphanumerics, `-` and `_`.
pub open spec fn spec_is_safe_identifier(s: Seq<char>) -> bool {
    s.len() > 0 && s.len() <= MAX_ID_LEN && forall|i: int|
        0 <= i < s.len() ==> is_id_char(#[trigger] s[i])
}

pub open spec fn spec_validate_safe_name(field: Seq<char>, value: Seq<char>, max: usize) -> FedCheck {
    if trim(value).len() == 0 {
        Err(FederationFailure::MissingField(field))
    } else if value.len() > max {
        Err(FederationFailure::TextTooLong { field, max })
    } else if exists|i: int| 0 <= i < value.len() && is_control(#[trigger] value[i]) {
        Err(FederationFailure::UnsafeText { field })
    } else {
        Ok(())
    }
}

pub open spec fn member_id_dup_before(ms: Seq<FederationMember>, i: int) -> bool {
    exists|j: int| 0 <= j < i && (#[trigger] ms[j]).member_id@ == ms[i].member_id@
}

pub open spec fn source_commit_dup_before(ms: Seq<FederationMember>, i: int) -> bool {
    exists|j: int|
        0 <= j < i && (#[trigger] ms[j]).source_project_id@ == ms[i].source_project_id@
            && ms[j].commit_hash@ == ms[i].commit_hash@
}

/// The checks for member `i`, in order; `affine_ok` is its transform verdict.
pub open spec fn spec_member_check(ms: Seq<FederationMember>, i: int, affine_ok: bool) -> FedCheck {
    let m = ms[i];
    if !spec_is_safe_identifier(m.member_id@) {
        Err(FederationFailure::UnsafeId { field: "member_id"@ })
    } else if member_id_dup_before(ms, i) {
        Err(FederationFailure::DuplicateMemberId(m.member_id@))
    } else if !spec_is_safe_identifier(m.source_project_id@) {
        Err(FederationFailure::UnsafeId { field: "source_project_id"@ })
    } else if !spec_is_full_commit_hash(m.commit_hash@) {
        Err(FederationFailure::InvalidCommitHash { member_id: m.member_id@ })
    } else if spec_validate_safe_name("display_name"@, m.display_name@, MAX_NAME_LEN) is Err {
        spec_validate_safe_name("display_name"@, m.display_name@, MAX_NAME_LEN)
    } else if m.discipline is Some && spec_validate_safe_name(
        "discipline"@,
        m.discipline->0@,
        MAX_DISCIPLINE_LEN,
    ) is Err {
        spec_validate_safe_name("discipline"@, m.discipline->0@, MAX_DISCIPLINE_LEN)
    } else if !affine_ok {
        Err(FederationFailure::InvalidTransform { member_id: m.member_id@ })
    } else if source_commit_dup_before(ms, i) {
        Err(
            FederationFailure::DuplicateSourceCommit {
                source_project_id: m.source_project_id@,
                commit_hash: m.commit_hash@,
            },
        )
    } else {
        Ok(())
    }
}

pub open spec fn spec_members_check(ms: Seq<FederationMember>, ok: Seq<bool>, n: int) -> FedCheck
    decreases n,
{
    if n <= 0 {
        Ok(())
    } else {
        match spec_members_check(ms, ok, n - 1) {
            Err(e) => Err(e),
            Ok(()) => spec_member_check(ms, n - 1, ok[n - 1]),
        }
    }
}

/// The whole federation validation, given each member's transform verdict.
pub open spec fn spec_validate_federation(f: Federation, affine_ok: Seq<bool>) -> FedCheck {
    if !spec_is_compatible(f.schema@, FEDERATION@) {
        Err(FederationFailure::IncompatibleSchema { expected: FEDERATION@, actual: f.schema@ })
    } else if !spec_is_safe_identifier(f.federation_id@) {
        Err(FederationFailure::UnsafeId { field: "federation_id"@ })
    } else if spec_validate_safe_name("name"@, f.name@, MAX_NAME_LEN) is Err {
        spec_validate_safe_name("name"@, f.name@, MAX_NAME_LEN)
    } else if f.members@.len() == 0 {
        Err(FederationFailure::NoMembers)
    } else if f.members@.len() > MAX_MEMBERS {
        Err(FederationFailure::TooManyMembers { max: MAX_MEMBERS })
    } else {
        spec_members_check(f.members@, affine_ok, f.members@.len() as int)
    }
}

proof fn lemma_members_err_stays(ms: Seq<FederationMember>, ok: Seq<bool>, n: int, m: int)
    requires
        0 < n <= m,
        spec_members_check(ms, ok, n) is Err,
    ensures
        spec_members_check(ms, ok, m) == spec_members_check(ms, ok, n),
    decreases m - n,
{
    if n < m {
        lemma_members_err_stays(ms, ok, n, m - 1);
    }
}

/// True when `value` is a complete 64-character hex commit hash (either case).
pub fn is_full_commit_hash(value: &str) -> (r: bool)
    ensures
        r == spec_is_full_commit_hash(value@),
{
    let v = chars_of(value);
    if v.len() != 64 {
        return false;
    }
    let mut i: usize = 0;
    while i < v.len()
        invariant
            i <= v.len() == 64,
            v@ == value@,
            forall|j: int| 0 <= j < i ==> is_ascii_hex(#[trigger] v@[j]),
        decreases v.len() - i,
    {
        if !char_is_ascii_hex(v[i]) {
            return false;
        }
        i = i + 1;
    }
    true
}

/// Identifier safety shared by federation, member and source-project ids.
pub fn is_safe_identifier(value: &str) -> (r: bool)
    ensures
        r == spec_is_safe_identifier(value@),
{
    let v = chars_of(value);
    if v.len() == 0 || v.len() > MAX_ID_LEN {
        return false;
    }
    let mut i: usize = 0;
    while i < v.len()
        invariant
            i <= v.len() <= MAX_ID_LEN,
            v@ == value@,
            forall|j: int| 0 <= j < i ==> is_id_char(#[trigger] v@[j]),
        decreases v.len() - i,
    {
        let c = v[i];
        if !(char_is_ascii_alnum(c) || c == '-' || c == '_') {
            return false;
        }
        i = i + 1;
    }
    true
}

fn validate_safe_name(field: &'static str, value: &str, max: usize) -> (r: Result<
    (),
    FederationValidationError,
>)
    ensures
        match r {
            Ok(()) => spec_validate_safe_name(field@, value@, max) is Ok,
            Err(e) => spec_validate_safe_name(field@, value@, max) == Err::<(), FederationFailure>(
                e@,
            ),
        },
{
    if is_blank(value) {
        return Err(FederationValidationError::MissingField(field));
    }
    let v = chars_of(value);
    if v.len() > max {
        return Err(FederationValidationError::TextTooLong { field, max });
    }
    let mut i: usize = 0;
    while i < v.len()
        invariant
            i <= v.len(),
            v@ == value@,
            v.len() <= max,
            trim(value@).len() != 0,
            forall|j: int| 0 <= j < i ==> !is_control(#[trigger] v@[j]),
        decreases v.len() - i,
    {
        if char_is_control(v[i]) {
            assert(is_control(value@[i as int]));
            return Err(FederationValidationError::UnsafeText { field });
        }
        i = i + 1;
    }
    Ok(())
}

fn has_member_id_before(ms: &Vec<FederationMember>, i: usize) -> (r: bool)
    requires
        i < ms.len(),
    ensures
        r == member_id_dup_before(ms@, i as int),
{
    let mut j: usize = 0;
    while j < i
        invariant
            j <= i < ms.len(),
            forall|k: int| 0 <= k < j ==> (#[trigger] ms@[k]).member_id@ != ms@[i as int].member_id@,
        decreases i - j,
    {
        if str_eq(ms[j].member_id.as_str(), ms[i].member_id.as_str()) {
            assert(ms@[j as int].member_id@ == ms@[i as int].member_id@);
            return true;
        }
        j = j + 1;
    }
    false
}

fn has_source_commit_before(ms: &Vec<FederationMember>, i: usize) -> (r: bool)
    requires
        i < ms.len(),
    ensures
        r == source_commit_dup_before(ms@, i as int),
{
    let mut j: usize = 0;
    while j < i
        invariant
            j <= i < ms.len(),
            forall|k: int|
                0 <= k < j ==> !((#[trigger] ms@[k]).source_project_id@
                    == ms@[i as int].source_project_id@ && ms@[k].commit_hash@
                    == ms@[i as int].commit_hash@),
        decreases i - j,
    {
        if str_eq(ms[j].source_project_id.as_str(), ms[i].source_project_id.as_str()) && str_eq(
            ms[j].commit_hash.as_str(),
            ms[i].commit_hash.as_str(),
        ) {
            assert(ms@[j as int].source_project_id@ == ms@[i as int].source_project_id@);
            return true;
        }
        j = j + 1;
    }
    false
}

fn validate_member(ms: &Vec<FederationMember>, i: usize, affine_ok: bool) -> (r: Result<
    (),
    FederationValidationError,
>)
    requires
        i < ms.len(),
    ensures
        match r {
            Ok(()) => spec_member_check(ms@, i as int, affine_ok) is Ok,
            Err(e) => spec_member_check(ms@, i as int, affine_ok) == Err::<(), FederationFailure>(
                e@,
            ),
        },
{
    let m = &ms[i];
    if !is_safe_identifier(m.member_id.as_str()) {
        return Err(FederationValidationError::UnsafeId { field: "member_id" });
    }
    if has_member_id_before(ms, i) {
        return Err(FederationValidationError::DuplicateMemberId(m.member_id.clone()));
    }
    if !is_safe_identifier(m.source_project_id.as_str()) {
        return Err(FederationValidationError::UnsafeId { field: "source_project_id" });
    }
    if !is_full_commit_hash(m.commit_hash.as_str()) {
        return Err(FederationValidationError::InvalidCommitHash { member_id: m.member_id.clone() });
    }
    validate_safe_name("display_name", m.display_name.as_str(), MAX_NAME_LEN)?;
    match &m.discipline {
        Some(d) => {
            validate_safe_name("discipline", d.as_str(), MAX_DISCIPLINE_LEN)?;
        },
        None => {},
    }
    if !affine_ok {
        return Err(FederationValidationError::InvalidTransform { member_id: m.member_id.clone() });
    }
    if has_source_commit_before(ms, i) {
        return Err(
            FederationValidationError::DuplicateSourceCommit {
                source_project_id: m.source_project_id.clone(),
                commit_hash: m.commit_hash.clone(),
            },
        );
    }
    Ok(())
}

/// Number of visible members.
pub open spec fn count_visible(ms: Seq<FederationMember>) -> nat
    decreases ms.len(),
{
    if ms.len() == 0 {
        0
    } else {
        count_visible(ms.drop_last()) + if ms.last().visible {
            1nat
        } else {
            0nat
        }
    }
}

proof fn lemma_count_visible_le(ms: Seq<FederationMember>)
    ensures
        count_visible(ms) <= ms.len(),
    decreases ms.len(),
{
    if ms.len() > 0 {
        lemma_count_visible_le(ms.drop_last());
    }
}

impl Federation {
    /// Reject a structurally invalid or unsafe federation before it is persisted
    /// or served. `affine_ok[i]` is the verdict of the floating-point affine
    /// check on member `i`'s transform. The first failure in check order is
    /// reported.
    pub fn validate(&self, affine_ok: &Vec<bool>) -> (r: Result<(), FederationValidationError>)
        requires
            affine_ok.len() == self.members.len(),
        ensures
            match r {
                Ok(()) => spec_validate_federation(*self, affine_ok@) is Ok,
                Err(e) => spec_validate_federation(*self, affine_ok@) == Err::<
                    (),
                    FederationFailure,
                >(e@),
            },
    {
        if !is_compatible(self.schema.as_str(), FEDERATION) {
            return Err(
                FederationValidationError::IncompatibleSchema {
                    expected: FEDERATION,
                    actual: self.schema.clone(),
                },
            );
        }
        if !is_safe_identifier(self.federation_id.as_str()) {
            return Err(FederationValidationError::UnsafeId { field: "federation_id" });
        }
        validate_safe_name("name", self.name.as_str(), MAX_NAME_LEN)?;
        if self.members.len() == 0 {
            return Err(FederationValidationError::NoMembers);
        }
        if self.members.len() > MAX_MEMBERS {
            return Err(FederationValidationError::TooManyMembers { max: MAX_MEMBERS });
        }
        let mut i: usize = 0;
        while i < self.members.len()
            invariant
                i <= self.members.len() == affine_ok.len(),
                spec_is_compatible(self.schema@, FEDERATION@),
                spec_is_safe_identifier(self.federation_id@),
                spec_validate_safe_name("name"@, self.name@, MAX_NAME_LEN) is Ok,
                0 < self.members.len() <= MAX_MEMBERS,
                spec_members_check(self.members@, affine_ok@, i as int) is Ok,
            decreases self.members.len() - i,
        {
            let checked = validate_member(&self.members, i, affine_ok[i]);
            if let Err(e) = checked {
                proof {
                    reveal_with_fuel(spec_members_check, 2);
                    lemma_members_err_stays(
                        self.members@,
                        affine_ok@,
                        i + 1,
                        self.members@.len() as int,
                    );
                }
                return Err(e);
            }
            i = i + 1;
        }
        Ok(())
    }

    /// Compact, list-friendly projection of this federation.
    pub fn summary(&self) -> (s: FederationSummary)
        ensures
            s.federation_id@ == self.federation_id@,
            s.name@ == self.name@,
            s.member_count == self.members.len(),
            s.visible_member_count == count_visible(self.members@),
            s.created_at_unix == self.created_at_unix,
            s.updated_at_unix == self.updated_at_unix,
    {
        let mut visible: usize = 0;
        let mut i: usize = 0;
        while i < self.members.len()
            invariant
                i <= self.members.len(),
                visible == count_visible(self.members@.subrange(0, i as int)),
            decreases self.members.len() - i,
        {
            proof {
                let pre = self.members@.subrange(0, i + 1);
                assert(pre.drop_last() =~= self.members@.subrange(0, i as int));
                lemma_count_visible_le(self.members@.subrange(0, i as int));
            }
            if self.members[i].visible {
                visible = visible + 1;
            }
            i = i + 1;
        }
        proof {
            assert(self.members@.subrange(0, i as int) =~= self.members@);
        }
        FederationSummary {
            federation_id: self.federation_id.clone(),
            name: self.name.clone(),
            member_count: self.members.len(),
            visible_member_count: visible,
            created_at_unix: self.created_at_unix,
            updated_at_unix: self.updated_at_unix,
        }
    }
}

/// The human-readable text of a federation validation failure.
pub open spec fn spec_federation_failure_message(f: FederationFailure) -> Seq<char> {
    match f {
        FederationFailure::IncompatibleSchema { expected, actual } => "federation schema "@ + debug_text(actual)
            + " is not compatible with "@ + debug_text(expected),
        FederationFailure::MissingField(field) => field + " must not be empty"@,
        FederationFailure::UnsafeText { field } => field + " must not contain control characters"@,
        FederationFailure::TextTooLong { field, max } => field + " is too long (max "@ + dec(max as nat)
            + " characters)"@,
        FederationFailure::UnsafeId { field } => field + " may only contain ASCII letters, numbers, '-' or '_'"@,
        FederationFailure::NoMembers => "a federation must have at least one member"@,
        FederationFailure::TooManyMembers { max } => "a federation may have at most "@ + dec(max as nat) + " members"@,
        FederationFailure::InvalidCommitHash { member_id } => "member "@ + debug_text(member_id)
            + " must pin a complete 64 hex character commit hash"@,
        FederationFailure::InvalidTransform { member_id } => "member "@ + debug_text(member_id)
            + " has a non-finite, singular, or perspective transform"@,
        FederationFailure::DuplicateMemberId(m) => "member_id "@ + debug_text(m) + " is duplicated"@,
        FederationFailure::DuplicateSourceCommit { source_project_id, commit_hash } => "source project "@
            + debug_text(source_project_id) + " commit "@ + debug_text(commit_hash) + " appears more than once"@,
    }
}

fn concat2(a: &str, b: &str) -> (r: String)
    ensures
        r@ == a@ + b@,
{
    string_of(&crate::text::cat(&chars_of(a), &chars_of(b)))
}

fn concat3(a: &str, b: &str, c: &str) -> (r: String)
    ensures
        r@ == a@ + b@ + c@,
{
    string_of(&crate::text::cat(&crate::text::cat(&chars_of(a), &chars_of(b)), &chars_of(c)))
}

impl FederationValidationError {
    /// The human-readable text of this failure.
    pub fn message(&self) -> (r: String)
        ensures
            r@ == spec_federation_failure_message(self@),
    {
        match self {
            FederationValidationError::IncompatibleSchema { expected, actual } => {
                let a = debug_quoted(actual.as_str());
                let e = debug_quoted(expected);
                let head = concat3("federation schema ", a.as_str(), " is not compatible with ");
                let r = concat2(head.as_str(), e.as_str());
                proof {
                    assert(r@ =~= "federation schema "@ + a@ + " is not compatible with "@ + e@);
                }
                r
            },
            FederationValidationError::MissingField(field) => concat2(field, " must not be empty"),
            FederationValidationError::UnsafeText { field } => concat2(field, " must not contain control characters"),
            FederationValidationError::TextTooLong { field, max } => {
                let n = string_of(&crate::text::dec_chars(*max as u64));
                let head = concat3(field, " is too long (max ", n.as_str());
                let r = concat2(head.as_str(), " characters)");
                proof {
                    assert(r@ =~= field@ + " is too long (max "@ + dec(*max as nat) + " characters)"@);
                }
                r
            },
            FederationValidationError::UnsafeId { field } => concat2(
                field,
                " may only contain ASCII letters, numbers, '-' or '_'",
            ),
            FederationValidationError::NoMembers => owned("a federation must have at least one member"),
            FederationValidationError::TooManyMembers { max } => {
                let n = string_of(&crate::text::dec_chars(*max as u64));
                concat3("a federation may have at most ", n.as_str(), " members")
            },
            FederationValidationError::InvalidCommitHash { member_id } => {
                let d = debug_quoted(member_id.as_str());
                concat3("member ", d.as_str(), " must pin a complete 64 hex character commit hash")
            },
            FederationValidationError::InvalidTransform { member_id } => {
                let d = debug_quoted(member_id.as_str());
                concat3("member ", d.as_str(), " has a non-finite, singular, or perspective transform")
            },
            FederationValidationError::DuplicateMemberId(m) => {
                let d = debug_quoted(m.as_str());
                concat3("member_id ", d.as_str(), " is duplicated")
            },
            FederationValidationError::DuplicateSourceCommit { source_project_id, commit_hash } => {
                let p = debug_quoted(source_project_id.as_str());
                let c = debug_quoted(commit_hash.as_str());
                let head = concat3("source project ", p.as_str(), " commit ");
                let r = concat3(head.as_str(), c.as_str(), " appears more than once");
                proof {
                    assert(r@ =~= "source project "@ + p@ + " commit "@ + c@ + " appears more than once"@);
                }
                r
            },
        }
    }
}


proof fn lemma_count_visible_is_filter(ms: Seq<FederationMember>)
    ensures
        count_visible(ms) == ms.filter(|m: FederationMember| m.visible).len(),
    decreases ms.len(),
{
    reveal(Seq::filter);
    if ms.len() > 0 {
        lemma_count_visible_is_filter(ms.drop_last());
    }
}

proof fn lemma_hidden_member_lowers_count(ms: Seq<FederationMember>, i: int)
    requires
        0 <= i < ms.len(),
        !ms[i].visible,
    ensures
        count_visible(ms) < ms.len(),
    decreases ms.len(),
{
    if i < ms.len() - 1 {
        assert(ms.drop_last()[i] == ms[i]);
        lemma_hidden_member_lowers_count(ms.drop_last(), i);
    } else {
        lemma_count_visible_le(ms.drop_last());
    }
}

/// A summary's visible count is the number of members marked visible: the
/// length of the members filtered by `visible`, below the member count as soon
/// as one member is hidden, and equal to it when none is.
pub proof fn law_visible_count_counts_visible_members(f: Federation)
    ensures
        count_visible(f.members@) == f.members@.filter(|m: FederationMember| m.visible).len(),
        (exists|i: int| 0 <= i < f.members@.len() && !(#[trigger] f.members@[i]).visible) ==> count_visible(f.members@)
            < f.members@.len(),
        (forall|i: int| 0 <= i < f.members@.len() ==> (#[trigger] f.members@[i]).visible) ==> count_visible(f.members@)
            == f.members@.len(),
{
    lemma_count_visible_is_filter(f.members@);
    if exists|i: int| 0 <= i < f.members@.len() && !(#[trigger] f.members@[i]).visible {
        let i = choose|i: int| 0 <= i < f.members@.len() && !(#[trigger] f.members@[i]).visible;
        lemma_hidden_member_lowers_count(f.members@, i);
    }
    if forall|i: int| 0 <= i < f.members@.len() ==> (#[trigger] f.members@[i]).visible {
        lemma_all_visible_count(f.members@);
    }
}

proof fn lemma_all_visible_count(ms: Seq<FederationMember>)
    requires
        forall|i: int| 0 <= i < ms.len() ==> (#[trigger] ms[i]).visible,
    ensures
        count_visible(ms) == ms.len(),
    decreases ms.len(),
{
    if ms.len() > 0 {
        assert forall|i: int| 0 <= i < ms.drop_last().len() implies (#[trigger] ms.drop_last()[i]).visible by {
            assert(ms.drop_last()[i] == ms[i]);
        }
        lemma_all_visible_count(ms.drop_last());
        assert(ms[ms.len() - 1].visible);
    }
}

} // verus!
