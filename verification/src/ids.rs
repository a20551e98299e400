use crate::text::{chars_of, string_of};
use vstd::prelude::*;

verus! {

/// Why a string was refused as an identifier.
#[derive(Debug, Clone, Copy, PartialEq, Eq, Structural)]
pub enum IdError {
    /// The value is empty or holds only whitespace.
    Empty,
    /// The first character that is not allowed.
    InvalidCharacter(char),
}

/// Unicode `White_Space` (what `char::is_whitespace` tests).
pub open spec fn is_unicode_whitespace(c: char) -> bool {
    let v = c as u32;
    ||| 0x9 <= v <= 0xd
    ||| v == 0x20
    ||| v == 0x85
    ||| v == 0xa0
    ||| v == 0x1680
    ||| 0x2000 <= v <= 0x200a
    ||| v == 0x2028
    ||| v == 0x2029
    ||| v == 0x202f
    ||| v == 0x205f
    ||| v == 0x3000
}

/// Characters allowed in identifiers: ASCII letters and digits, `.`, `_` and `-`.
pub open spec fn is_identifier_char(c: char) -> bool {
    let v = c as u32;
    ||| 0x30 <= v <= 0x39
    ||| 0x41 <= v <= 0x5a
    ||| 0x61 <= v <= 0x7a
    ||| v == 0x2e
    ||| v == 0x5f
    ||| v == 0x2d
}

/// A character may stand in an identifier exactly when it is an ASCII letter of either
/// case, an ASCII digit, `.`, `_` or `-`.
pub proof fn lemma_identifier_chars(c: char)
    ensures
        is_identifier_char(c) <==> {
            ||| ('a' as u32) <= (c as u32) <= ('z' as u32)
            ||| ('A' as u32) <= (c as u32) <= ('Z' as u32)
            ||| ('0' as u32) <= (c as u32) <= ('9' as u32)
            ||| c == '.'
            ||| c == '_'
            ||| c == '-'
        },
{
}

/// The value is empty once surrounding whitespace is trimmed.
pub open spec fn trims_to_empty(s: Seq<char>) -> bool {
    forall|i: int| 0 <= i < s.len() ==> is_unicode_whitespace(#[trigger] s[i])
}

/// `i` is the position of the first character that is not allowed.
pub open spec fn is_first_invalid(s: Seq<char>, i: int) -> bool {
    &&& 0 <= i < s.len()
    &&& !is_identifier_char(s[i])
    &&& forall|j: int| 0 <= j < i ==> is_identifier_char(#[trigger] s[j])
}

/// Every character is allowed.
pub open spec fn all_identifier_chars(s: Seq<char>) -> bool {
    forall|i: int| 0 <= i < s.len() ==> is_identifier_char(#[trigger] s[i])
}

/// What checking `s` as an identifier gives.
pub open spec fn identifier_result(s: Seq<char>) -> Result<(), IdError> {
    if trims_to_empty(s) {
        Err(IdError::Empty)
    } else if all_identifier_chars(s) {
        Ok(())
    } else {
        Err(IdError::InvalidCharacter(s[choose|i: int| is_first_invalid(s, i)]))
    }
}

/// A valid identifier: not blank, and made of allowed characters only.
pub open spec fn is_valid_identifier(s: Seq<char>) -> bool {
    identifier_result(s) is Ok
}

fn is_whitespace_char(c: char) -> (r: bool)
    ensures
        r == is_unicode_whitespace(c),
{
    let v = c as u32;
    (0x9 <= v && v <= 0xd) || v == 0x20 || v == 0x85 || v == 0xa0 || v == 0x1680 || (0x2000 <= v
        && v <= 0x200a) || v == 0x2028 || v == 0x2029 || v == 0x202f || v == 0x205f || v == 0x3000
}

/// Whether a character is Unicode whitespace.
pub fn is_whitespace(c: char) -> (r: bool)
    ensures
        r == is_unicode_whitespace(c),
{
    is_whitespace_char(c)
}

fn is_allowed_char(c: char) -> (r: bool)
    ensures
        r == is_identifier_char(c),
{
    let v = c as u32;
    (0x30 <= v && v <= 0x39) || (0x41 <= v && v <= 0x5a) || (0x61 <= v && v <= 0x7a) || v == 0x2e
        || v == 0x5f || v == 0x2d
}

/// A non-empty text of allowed characters is a valid identifier (no allowed character
/// is whitespace).
pub proof fn lemma_identifier_text(s: Seq<char>)
    requires
        s.len() > 0,
        all_identifier_chars(s),
    ensures
        is_valid_identifier(s),
{
    assert(is_identifier_char(s[0]));
    assert(!is_unicode_whitespace(s[0]));
}

/// A non-empty text made only of ASCII letters of either case, ASCII digits, `.`, `_` and
/// `-` is a valid identifier.
pub proof fn lemma_identifier_texts_accepted(s: Seq<char>)
    requires
        s.len() > 0,
        forall|i: int|
            0 <= i < s.len() ==> {
                let v = (#[trigger] s[i]) as u32;
                ||| ('a' as u32) <= v <= ('z' as u32)
                ||| ('A' as u32) <= v <= ('Z' as u32)
                ||| ('0' as u32) <= v <= ('9' as u32)
                ||| s[i] == '.'
                ||| s[i] == '_'
                ||| s[i] == '-'
            },
    ensures
        identifier_result(s) == Ok::<(), IdError>(()),
{
    assert forall|i: int| 0 <= i < s.len() implies is_identifier_char(#[trigger] s[i]) by {
        lemma_identifier_chars(s[i]);
    }
    lemma_identifier_text(s);
}

/// Whether the text is empty once surrounding whitespace is trimmed.
pub fn is_blank(value: &str) -> (r: bool)
    ensures
        r == trims_to_empty(value@),
{
    let chars = chars_of(value);
    let n = chars.len();
    let mut i: usize = 0;
    while i < n
        invariant
            n == chars@.len(),
            chars@ == value@,
            i <= n,
            forall|j: int| 0 <= j < i ==> is_unicode_whitespace(#[trigger] chars@[j]),
        decreases n - i,
    {
        if !is_whitespace_char(chars[i]) {
            return false;
        }
        i = i + 1;
    }
    true
}

/// Checks that `value` is a stable identifier.
pub fn validate_identifier(value: &str) -> (r: Result<(), IdError>)
    ensures
        r == identifier_result(value@),
{
    let chars = chars_of(value);
    let n = chars.len();
    let mut blank = true;
    let mut i: usize = 0;
    while i < n
        invariant
            n == chars@.len(),
            chars@ == value@,
            i <= n,
            blank == (forall|j: int| 0 <= j < i ==> is_unicode_whitespace(#[trigger] chars@[j])),
        decreases n - i,
    {
        if !is_whitespace_char(chars[i]) {
            blank = false;
        }
        i = i + 1;
    }
    if blank {
        return Err(IdError::Empty);
    }
    let mut k: usize = 0;
    while k < n
        invariant
            n == chars@.len(),
            chars@ == value@,
            k <= n,
            !trims_to_empty(value@),
            forall|j: int| 0 <= j < k ==> is_identifier_char(#[trigger] chars@[j]),
        decreases n - k,
    {
        let c = chars[k];
        if !is_allowed_char(c) {
            proof {
                assert(is_first_invalid(value@, k as int));
                let w = choose|w: int| is_first_invalid(value@, w);
                if w < k {
                    assert(is_identifier_char(value@[w]));
                } else if w > k {
                    assert(is_identifier_char(value@[k as int]));
                }
                assert(!all_identifier_chars(value@));
            }
            return Err(IdError::InvalidCharacter(c));
        }
        k = k + 1;
    }
    Ok(())
}

/// A validated `ProjectId`: a non-blank string of ASCII letters, digits, `.`, `_` and `-`.
#[derive(Debug, PartialEq, Eq, PartialOrd, Ord, Hash)]
pub struct ProjectId {
    value: String,
}

impl Clone for ProjectId {
    fn clone(&self) -> (r: Self)
        ensures
            r == *self,
    {
        ProjectId { value: self.value.clone() }
    }
}

impl ProjectId {
    /// The characters of the identifier.
    pub closed spec fn view(&self) -> Seq<char> {
        self.value@
    }

    /// Validates `value` and wraps it.
    pub fn new(value: &str) -> (r: Result<Self, IdError>)
        ensures
            r is Ok <==> is_valid_identifier(value@),
            r matches Ok(id) ==> id.view() == value@,
            r matches Err(e) ==> identifier_result(value@) == Err::<(), IdError>(e),
    {
        match validate_identifier(value) {
            Ok(()) => Ok(ProjectId { value: string_of(value) }),
            Err(e) => Err(e),
        }
    }

    /// Wraps an identifier known to be valid (a literal of the program).
    pub fn from_static(value: &str) -> (r: Self)
        requires
            is_valid_identifier(value@),
        ensures
            r.view() == value@,
    {
        ProjectId { value: string_of(value) }
    }

    /// The identifier text.
    pub fn as_str(&self) -> (s: &str)
        ensures
            s@ == self.view(),
    {
        self.value.as_str()
    }

    /// The identifier text, owned.
    pub fn into_inner(self) -> (s: String)
        ensures
            s@ == self.view(),
    {
        self.value
    }

    /// Whether two identifiers hold the same text.
    pub fn same(&self, other: &Self) -> (r: bool)
        ensures
            r == (self.view() == other.view()),
    {
        self.value == other.value
    }
}

/// A validated `DocumentId`: a non-blank string of ASCII letters, digits, `.`, `_` and `-`.
#[derive(Debug, PartialEq, Eq, PartialOrd, Ord, Hash)]
pub struct DocumentId {
    value: String,
}

impl Clone for DocumentId {
    fn clone(&self) -> (r: Self)
        ensures
            r == *self,
    {
        proof {
            use_type_invariant(self);
        }
        DocumentId { value: self.value.clone() }
    }
}

impl DocumentId {
    /// A document identifier always holds a valid identifier.
    #[verifier::type_invariant]
    spec fn valid(self) -> bool {
        is_valid_identifier(self.value@)
    }

    /// The same text as an asset identifier (both follow the identifier rules).
    pub fn to_asset_id(&self) -> (a: AssetId)
        ensures
            a.view() == self.view(),
    {
        proof {
            use_type_invariant(self);
        }
        AssetId::from_static(self.value.as_str())
    }

    /// The characters of the identifier.
    pub closed spec fn view(&self) -> Seq<char> {
        self.value@
    }

    /// Validates `value` and wraps it.
    pub fn new(value: &str) -> (r: Result<Self, IdError>)
        ensures
            r is Ok <==> is_valid_identifier(value@),
            r matches Ok(id) ==> id.view() == value@,
            r matches Err(e) ==> identifier_result(value@) == Err::<(), IdError>(e),
    {
        match validate_identifier(value) {
            Ok(()) => Ok(DocumentId { value: string_of(value) }),
            Err(e) => Err(e),
        }
    }

    /// Wraps an identifier known to be valid (a literal of the program).
    pub fn from_static(value: &str) -> (r: Self)
        requires
            is_valid_identifier(value@),
        ensures
            r.view() == value@,
    {
        DocumentId { value: string_of(value) }
    }

    /// The identifier text.
    pub fn as_str(&self) -> (s: &str)
        ensures
            s@ == self.view(),
    {
        self.value.as_str()
    }

    /// The identifier text, owned.
    pub fn into_inner(self) -> (s: String)
        ensures
            s@ == self.view(),
    {
        self.value
    }

    /// Whether two identifiers hold the same text.
    pub fn same(&self, other: &Self) -> (r: bool)
        ensures
            r == (self.view() == other.view()),
    {
        self.value == other.value
    }
}

/// A validated `ObjectId`: a non-blank string of ASCII letters, digits, `.`, `_` and `-`.
#[derive(Debug, PartialEq, Eq, PartialOrd, Ord, Hash)]
pub struct ObjectId {
    value: String,
}

impl Clone for ObjectId {
    fn clone(&self) -> (r: Self)
        ensures
            r == *self,
    {
        ObjectId { value: self.value.clone() }
    }
}

impl ObjectId {
    /// The characters of the identifier.
    pub closed spec fn view(&self) -> Seq<char> {
        self.value@
    }

    /// Validates `value` and wraps it.
    pub fn new(value: &str) -> (r: Result<Self, IdError>)
        ensures
            r is Ok <==> is_valid_identifier(value@),
            r matches Ok(id) ==> id.view() == value@,
            r matches Err(e) ==> identifier_result(value@) == Err::<(), IdError>(e),
    {
        match validate_identifier(value) {
            Ok(()) => Ok(ObjectId { value: string_of(value) }),
            Err(e) => Err(e),
        }
    }

    /// Wraps an identifier known to be valid (a literal of the program).
    pub fn from_static(value: &str) -> (r: Self)
        requires
            is_valid_identifier(value@),
        ensures
            r.view() == value@,
    {
        ObjectId { value: string_of(value) }
    }

    /// The identifier text.
    pub fn as_str(&self) -> (s: &str)
        ensures
            s@ == self.view(),
    {
        self.value.as_str()
    }

    /// The identifier text, owned.
    pub fn into_inner(self) -> (s: String)
        ensures
            s@ == self.view(),
    {
        self.value
    }

    /// Whether two identifiers hold the same text.
    pub fn same(&self, other: &Self) -> (r: bool)
        ensures
            r == (self.view() == other.view()),
    {
        self.value == other.value
    }
}

/// A validated `EngineTypeId`: a non-blank string of ASCII letters, digits, `.`, `_` and `-`.
#[derive(Debug, PartialEq, Eq, PartialOrd, Ord, Hash)]
pub struct EngineTypeId {
    value: String,
}

impl Clone for EngineTypeId {
    fn clone(&self) -> (r: Self)
        ensures
            r == *self,
    {
        EngineTypeId { value: self.value.clone() }
    }
}

impl EngineTypeId {
    /// The characters of the identifier.
    pub closed spec fn view(&self) -> Seq<char> {
        self.value@
    }

    /// Validates `value` and wraps it.
    pub fn new(value: &str) -> (r: Result<Self, IdError>)
        ensures
            r is Ok <==> is_valid_identifier(value@),
            r matches Ok(id) ==> id.view() == value@,
            r matches Err(e) ==> identifier_result(value@) == Err::<(), IdError>(e),
    {
        match validate_identifier(value) {
            Ok(()) => Ok(EngineTypeId { value: string_of(value) }),
            Err(e) => Err(e),
        }
    }

    /// Wraps an identifier known to be valid (a literal of the program).
    pub fn from_static(value: &str) -> (r: Self)
        requires
            is_valid_identifier(value@),
        ensures
            r.view() == value@,
    {
        EngineTypeId { value: string_of(value) }
    }

    /// The identifier text.
    pub fn as_str(&self) -> (s: &str)
        ensures
            s@ == self.view(),
    {
        self.value.as_str()
    }

    /// The identifier text, owned.
    pub fn into_inner(self) -> (s: String)
        ensures
            s@ == self.view(),
    {
        self.value
    }

    /// Whether two identifiers hold the same text.
    pub fn same(&self, other: &Self) -> (r: bool)
        ensures
            r == (self.view() == other.view()),
    {
        self.value == other.value
    }
}

/// A validated `ArtifactId`: a non-blank string of ASCII letters, digits, `.`, `_` and `-`.
#[derive(Debug, PartialEq, Eq, PartialOrd, Ord, Hash)]
pub struct ArtifactId {
    value: String,
}

impl Clone for ArtifactId {
    fn clone(&self) -> (r: Self)
        ensures
            r == *self,
    {
        ArtifactId { value: self.value.clone() }
    }
}

impl ArtifactId {
    /// The characters of the identifier.
    pub closed spec fn view(&self) -> Seq<char> {
        self.value@
    }

    /// Validates `value` and wraps it.
    pub fn new(value: &str) -> (r: Result<Self, IdError>)
        ensures
            r is Ok <==> is_valid_identifier(value@),
            r matches Ok(id) ==> id.view() == value@,
            r matches Err(e) ==> identifier_result(value@) == Err::<(), IdError>(e),
    {
        match validate_identifier(value) {
            Ok(()) => Ok(ArtifactId { value: string_of(value) }),
            Err(e) => Err(e),
        }
    }

    /// Wraps an identifier known to be valid (a literal of the program).
    pub fn from_static(value: &str) -> (r: Self)
        requires
            is_valid_identifier(value@),
        ensures
            r.view() == value@,
    {
        ArtifactId { value: string_of(value) }
    }

    /// The identifier text.
    pub fn as_str(&self) -> (s: &str)
        ensures
            s@ == self.view(),
    {
        self.value.as_str()
    }

    /// The identifier text, owned.
    pub fn into_inner(self) -> (s: String)
        ensures
            s@ == self.view(),
    {
        self.value
    }

    /// Whether two identifiers hold the same text.
    pub fn same(&self, other: &Self) -> (r: bool)
        ensures
            r == (self.view() == other.view()),
    {
        self.value == other.value
    }
}

/// A validated `TransactionId`: a non-blank string of ASCII letters, digits, `.`, `_` and `-`.
#[derive(Debug, PartialEq, Eq, PartialOrd, Ord, Hash)]
pub struct TransactionId {
    value: String,
}

impl Clone for TransactionId {
    fn clone(&self) -> (r: Self)
        ensures
            r == *self,
    {
        TransactionId { value: self.value.clone() }
    }
}

impl TransactionId {
    /// The characters of the identifier.
    pub closed spec fn view(&self) -> Seq<char> {
        self.value@
    }

    /// Validates `value` and wraps it.
    pub fn new(value: &str) -> (r: Result<Self, IdError>)
        ensures
            r is Ok <==> is_valid_identifier(value@),
            r matches Ok(id) ==> id.view() == value@,
            r matches Err(e) ==> identifier_result(value@) == Err::<(), IdError>(e),
    {
        match validate_identifier(value) {
            Ok(()) => Ok(TransactionId { value: string_of(value) }),
            Err(e) => Err(e),
        }
    }

    /// Wraps an identifier known to be valid (a literal of the program).
    pub fn from_static(value: &str) -> (r: Self)
        requires
            is_valid_identifier(value@),
        ensures
            r.view() == value@,
    {
        TransactionId { value: string_of(value) }
    }

    /// The identifier text.
    pub fn as_str(&self) -> (s: &str)
        ensures
            s@ == self.view(),
    {
        self.value.as_str()
    }

    /// The identifier text, owned.
    pub fn into_inner(self) -> (s: String)
        ensures
            s@ == self.view(),
    {
        self.value
    }

    /// Whether two identifiers hold the same text.
    pub fn same(&self, other: &Self) -> (r: bool)
        ensures
            r == (self.view() == other.view()),
    {
        self.value == other.value
    }
}

/// A validated `AgentSessionId`: a non-blank string of ASCII letters, digits, `.`, `_` and `-`.
#[derive(Debug, PartialEq, Eq, PartialOrd, Ord, Hash)]
pub struct AgentSessionId {
    value: String,
}

impl Clone for AgentSessionId {
    fn clone(&self) -> (r: Self)
        ensures
            r == *self,
    {
        AgentSessionId { value: self.value.clone() }
    }
}

impl AgentSessionId {
    /// The characters of the identifier.
    pub closed spec fn view(&self) -> Seq<char> {
        self.value@
    }

    /// Validates `value` and wraps it.
    pub fn new(value: &str) -> (r: Result<Self, IdError>)
        ensures
            r is Ok <==> is_valid_identifier(value@),
            r matches Ok(id) ==> id.view() == value@,
            r matches Err(e) ==> identifier_result(value@) == Err::<(), IdError>(e),
    {
        match validate_identifier(value) {
            Ok(()) => Ok(AgentSessionId { value: string_of(value) }),
            Err(e) => Err(e),
        }
    }

    /// Wraps an identifier known to be valid (a literal of the program).
    pub fn from_static(value: &str) -> (r: Self)
        requires
            is_valid_identifier(value@),
        ensures
            r.view() == value@,
    {
        AgentSessionId { value: string_of(value) }
    }

    /// The identifier text.
    pub fn as_str(&self) -> (s: &str)
        ensures
            s@ == self.view(),
    {
        self.value.as_str()
    }

    /// The identifier text, owned.
    pub fn into_inner(self) -> (s: String)
        ensures
            s@ == self.view(),
    {
        self.value
    }

    /// Whether two identifiers hold the same text.
    pub fn same(&self, other: &Self) -> (r: bool)
        ensures
            r == (self.view() == other.view()),
    {
        self.value == other.value
    }
}

/// A validated `ToolId`: a non-blank string of ASCII letters, digits, `.`, `_` and `-`.
#[derive(Debug, PartialEq, Eq, PartialOrd, Ord, Hash)]
pub struct ToolId {
    value: String,
}

impl Clone for ToolId {
    fn clone(&self) -> (r: Self)
        ensures
            r == *self,
    {
        ToolId { value: self.value.clone() }
    }
}

impl ToolId {
    /// The characters of the identifier.
    pub closed spec fn view(&self) -> Seq<char> {
        self.value@
    }

    /// Validates `value` and wraps it.
    pub fn new(value: &str) -> (r: Result<Self, IdError>)
        ensures
            r is Ok <==> is_valid_identifier(value@),
            r matches Ok(id) ==> id.view() == value@,
            r matches Err(e) ==> identifier_result(value@) == Err::<(), IdError>(e),
    {
        match validate_identifier(value) {
            Ok(()) => Ok(ToolId { value: string_of(value) }),
            Err(e) => Err(e),
        }
    }

    /// Wraps an identifier known to be valid (a literal of the program).
    pub fn from_static(value: &str) -> (r: Self)
        requires
            is_valid_identifier(value@),
        ensures
            r.view() == value@,
    {
        ToolId { value: string_of(value) }
    }

    /// The identifier text.
    pub fn as_str(&self) -> (s: &str)
        ensures
            s@ == self.view(),
    {
        self.value.as_str()
    }

    /// The identifier text, owned.
    pub fn into_inner(self) -> (s: String)
        ensures
            s@ == self.view(),
    {
        self.value
    }

    /// Whether two identifiers hold the same text.
    pub fn same(&self, other: &Self) -> (r: bool)
        ensures
            r == (self.view() == other.view()),
    {
        self.value == other.value
    }
}

/// A validated `AssetId`: a non-blank string of ASCII letters, digits, `.`, `_` and `-`.
#[derive(Debug, PartialEq, Eq, PartialOrd, Ord, Hash)]
pub struct AssetId {
    value: String,
}

impl Clone for AssetId {
    fn clone(&self) -> (r: Self)
        ensures
            r == *self,
    {
        proof {
            use_type_invariant(self);
        }
        AssetId { value: self.value.clone() }
    }
}

impl AssetId {
    /// An asset identifier always holds a valid identifier.
    #[verifier::type_invariant]
    spec fn valid(self) -> bool {
        is_valid_identifier(self.value@)
    }

    /// The same text as a document identifier (both follow the identifier rules).
    pub fn to_document_id(&self) -> (d: DocumentId)
        ensures
            d.view() == self.view(),
    {
        proof {
            use_type_invariant(self);
        }
        DocumentId::from_static(self.value.as_str())
    }

    /// The characters of the identifier.
    pub closed spec fn view(&self) -> Seq<char> {
        self.value@
    }

    /// Validates `value` and wraps it.
    pub fn new(value: &str) -> (r: Result<Self, IdError>)
        ensures
            r is Ok <==> is_valid_identifier(value@),
            r matches Ok(id) ==> id.view() == value@,
            r matches Err(e) ==> identifier_result(value@) == Err::<(), IdError>(e),
    {
        match validate_identifier(value) {
            Ok(()) => Ok(AssetId { value: string_of(value) }),
            Err(e) => Err(e),
        }
    }

    /// Wraps an identifier known to be valid (a literal of the program).
    pub fn from_static(value: &str) -> (r: Self)
        requires
            is_valid_identifier(value@),
        ensures
            r.view() == value@,
    {
        AssetId { value: string_of(value) }
    }

    /// The identifier text.
    pub fn as_str(&self) -> (s: &str)
        ensures
            s@ == self.view(),
    {
        self.value.as_str()
    }

    /// The identifier text, owned.
    pub fn into_inner(self) -> (s: String)
        ensures
            s@ == self.view(),
    {
        self.value
    }

    /// Whether two identifiers hold the same text.
    pub fn same(&self, other: &Self) -> (r: bool)
        ensures
            r == (self.view() == other.view()),
    {
        self.value == other.value
    }
}

/// A validated `AssetSlotId`: a non-blank string of ASCII letters, digits, `.`, `_` and `-`.
#[derive(Debug, PartialEq, Eq, PartialOrd, Ord, Hash)]
pub struct AssetSlotId {
    value: String,
}

impl Clone for AssetSlotId {
    fn clone(&self) -> (r: Self)
        ensures
            r == *self,
    {
        AssetSlotId { value: self.value.clone() }
    }
}

impl AssetSlotId {
    /// The characters of the identifier.
    pub closed spec fn view(&self) -> Seq<char> {
        self.value@
    }

    /// Validates `value` and wraps it.
    pub fn new(value: &str) -> (r: Result<Self, IdError>)
        ensures
            r is Ok <==> is_valid_identifier(value@),
            r matches Ok(id) ==> id.view() == value@,
            r matches Err(e) ==> identifier_result(value@) == Err::<(), IdError>(e),
    {
        match validate_identifier(value) {
            Ok(()) => Ok(AssetSlotId { value: string_of(value) }),
            Err(e) => Err(e),
        }
    }

    /// Wraps an identifier known to be valid (a literal of the program).
    pub fn from_static(value: &str) -> (r: Self)
        requires
            is_valid_identifier(value@),
        ensures
            r.view() == value@,
    {
        AssetSlotId { value: string_of(value) }
    }

    /// The identifier text.
    pub fn as_str(&self) -> (s: &str)
        ensures
            s@ == self.view(),
    {
        self.value.as_str()
    }

    /// The identifier text, owned.
    pub fn into_inner(self) -> (s: String)
        ensures
            s@ == self.view(),
    {
        self.value
    }

    /// Whether two identifiers hold the same text.
    pub fn same(&self, other: &Self) -> (r: bool)
        ensures
            r == (self.view() == other.view()),
    {
        self.value == other.value
    }
}

/// A validated `StageInstanceId`: a non-blank string of ASCII letters, digits, `.`, `_` and `-`.
#[derive(Debug, PartialEq, Eq, PartialOrd, Ord, Hash)]
pub struct StageInstanceId {
    value: String,
}

impl Clone for StageInstanceId {
    fn clone(&self) -> (r: Self)
        ensures
            r == *self,
    {
        StageInstanceId { value: self.value.clone() }
    }
}

impl StageInstanceId {
    /// The characters of the identifier.
    pub closed spec fn view(&self) -> Seq<char> {
        self.value@
    }

    /// Validates `value` and wraps it.
    pub fn new(value: &str) -> (r: Result<Self, IdError>)
        ensures
            r is Ok <==> is_valid_identifier(value@),
            r matches Ok(id) ==> id.view() == value@,
            r matches Err(e) ==> identifier_result(value@) == Err::<(), IdError>(e),
    {
        match validate_identifier(value) {
            Ok(()) => Ok(StageInstanceId { value: string_of(value) }),
            Err(e) => Err(e),
        }
    }

    /// Wraps an identifier known to be valid (a literal of the program).
    pub fn from_static(value: &str) -> (r: Self)
        requires
            is_valid_identifier(value@),
        ensures
            r.view() == value@,
    {
        StageInstanceId { value: string_of(value) }
    }

    /// The identifier text.
    pub fn as_str(&self) -> (s: &str)
        ensures
            s@ == self.view(),
    {
        self.value.as_str()
    }

    /// The identifier text, owned.
    pub fn into_inner(self) -> (s: String)
        ensures
            s@ == self.view(),
    {
        self.value
    }

    /// Whether two identifiers hold the same text.
    pub fn same(&self, other: &Self) -> (r: bool)
        ensures
            r == (self.view() == other.view()),
    {
        self.value == other.value
    }
}

} // verus!
