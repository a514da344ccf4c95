//! Identities of workspaces, panes, items and projects.

use vstd::prelude::*;

verus! {

/// The hexadecimal digit, in lower case, for a value below sixteen.
pub open spec fn hex_digit(value: int) -> char {
    if value < 10 {
        (48 + value) as char
    } else {
        (87 + value) as char
    }
}

/// One of the thirty-two hexadecimal digits of a 128-bit value, the most significant first.
pub open spec fn nibble(value: u128, index: int) -> int {
    (value as int / vstd::arithmetic::power::pow(16, (31 - index) as nat)) % 16
}

/// The hyphenated text of a 128-bit identity: digits in groups of 8, 4, 4, 4 and 12.
pub open spec fn uuid_text(value: u128) -> Seq<char> {
    Seq::new(
        36,
        |i: int|
            if i == 8 || i == 13 || i == 18 || i == 23 {
                '-'
            } else if i < 8 {
                hex_digit(nibble(value, i))
            } else if i < 13 {
                hex_digit(nibble(value, i - 1))
            } else if i < 18 {
                hex_digit(nibble(value, i - 2))
            } else if i < 23 {
                hex_digit(nibble(value, i - 3))
            } else {
                hex_digit(nibble(value, i - 4))
            },
    )
}

/// Whether a 128-bit value carries the version and variant marks of a random identity.
pub open spec fn random_marks(value: u128) -> bool {
    (value as int / 0x1000_0000_0000_0000_0000) % 16 == 4 && (value as int
        / 0x4000_0000_0000_0000) % 4 == 2
}

/// What `uuid::Uuid::parse_str` makes of a text, as a 128-bit value.
pub uninterp spec fn parsed_uuid(text: Seq<char>) -> Option<u128>;

/// `uuid::Uuid::new_v4`: some value with the version and variant marks of a random identity. Which
/// one it is is left to chance.
#[verifier::external_body]
pub(crate) fn random_uuid() -> (value: u128)
    ensures
        random_marks(value),
{
    uuid::Uuid::new_v4().as_u128()
}

/// `uuid::Uuid`'s hyphenated text, which `uuid::Uuid::parse_str` reads back.
#[verifier::external_body]
pub(crate) fn format_uuid(value: u128) -> (text: String)
    ensures
        text@ == uuid_text(value),
        parsed_uuid(text@) == Some(value),
{
    uuid::Uuid::from_u128(value).hyphenated().to_string()
}

/// `uuid::Uuid::parse_str`, with its error dropped.
#[verifier::external_body]
pub(crate) fn parse_uuid(text: &str) -> (value: Option<u128>)
    ensures
        value == parsed_uuid(text@),
{
    uuid::Uuid::parse_str(text).ok().map(|parsed| parsed.as_u128())
}

/// The stable identity of a workspace.
#[derive(Clone, Copy, Debug, PartialEq, Eq, PartialOrd, Ord, Hash, Structural)]
pub struct WorkspaceId {
    pub value: u128,
}

impl WorkspaceId {
    /// A fresh random identity.
    pub fn new() -> (id: Self)
        ensures
            random_marks(id.value),
    {
        WorkspaceId { value: random_uuid() }
    }

    /// The identity with the given 128-bit value.
    pub fn from_uuid(value: u128) -> (id: Self)
        ensures
            id.value == value,
    {
        WorkspaceId { value }
    }

    /// The 128-bit value of the identity.
    pub fn as_uuid(self) -> (value: u128)
        ensures
            value == self.value,
    {
        self.value
    }

    /// The hyphenated text of the identity.
    pub fn to_text(&self) -> (text: String)
        ensures
            text@ == uuid_text(self.value),
            parsed_uuid(text@) == Some(self.value),
    {
        format_uuid(self.value)
    }
}

impl Default for WorkspaceId {
    fn default() -> (id: Self)
        ensures
            random_marks(id.value),
    {
        Self::new()
    }
}

/// The stable identity of a pane.
#[derive(Clone, Copy, Debug, PartialEq, Eq, PartialOrd, Ord, Hash, Structural)]
pub struct PaneId {
    pub value: u128,
}

impl PaneId {
    /// A fresh random identity.
    pub fn new() -> (id: Self)
        ensures
            random_marks(id.value),
    {
        PaneId { value: random_uuid() }
    }

    /// The identity with the given 128-bit value.
    pub fn from_uuid(value: u128) -> (id: Self)
        ensures
            id.value == value,
    {
        PaneId { value }
    }

    /// The 128-bit value of the identity.
    pub fn as_uuid(self) -> (value: u128)
        ensures
            value == self.value,
    {
        self.value
    }

    /// The hyphenated text of the identity.
    pub fn to_text(&self) -> (text: String)
        ensures
            text@ == uuid_text(self.value),
            parsed_uuid(text@) == Some(self.value),
    {
        format_uuid(self.value)
    }
}

impl Default for PaneId {
    fn default() -> (id: Self)
        ensures
            random_marks(id.value),
    {
        Self::new()
    }
}

/// The stable identity of an item in a pane.
#[derive(Clone, Copy, Debug, PartialEq, Eq, PartialOrd, Ord, Hash, Structural)]
pub struct SessionItemId {
    pub value: u128,
}

impl SessionItemId {
    /// A fresh random identity.
    pub fn new() -> (id: Self)
        ensures
            random_marks(id.value),
    {
        SessionItemId { value: random_uuid() }
    }

    /// The identity with the given 128-bit value.
    pub fn from_uuid(value: u128) -> (id: Self)
        ensures
            id.value == value,
    {
        SessionItemId { value }
    }

    /// The 128-bit value of the identity.
    pub fn as_uuid(self) -> (value: u128)
        ensures
            value == self.value,
    {
        self.value
    }

    /// The hyphenated text of the identity.
    pub fn to_text(&self) -> (text: String)
        ensures
            text@ == uuid_text(self.value),
            parsed_uuid(text@) == Some(self.value),
    {
        format_uuid(self.value)
    }
}

impl Default for SessionItemId {
    fn default() -> (id: Self)
        ensures
            random_marks(id.value),
    {
        Self::new()
    }
}

/// The identity of a project within a host session: a number that is never zero.
#[derive(Clone, Copy, Debug, PartialEq, Eq, PartialOrd, Ord, Hash, Structural)]
pub struct ProjectId {
    value: u64,
}

impl ProjectId {
    #[verifier::type_invariant]
    spec fn nonzero(self) -> bool {
        self.value != 0
    }

    /// The number of the project.
    pub closed spec fn number(self) -> u64 {
        self.value
    }

    /// The project with the given number, unless it is zero.
    pub fn new(value: u64) -> (id: Option<Self>)
        ensures
            match id {
                Some(id) => value != 0 && id.number() == value,
                None => value == 0,
            },
    {
        if value == 0 {
            None
        } else {
            Some(ProjectId { value })
        }
    }

    /// The first project of a session.
    pub fn first() -> (id: Self)
        ensures
            id.number() == 1,
    {
        ProjectId { value: 1 }
    }

    /// The number of the project.
    pub fn get(self) -> (value: u64)
        ensures
            value == self.number(),
            value != 0,
    {
        proof {
            use_type_invariant(&self);
        }
        self.value
    }
}

/// Projects with the same number are the same project.
pub proof fn law_project_number_is_identity(left: ProjectId, right: ProjectId)
    ensures
        (left == right) == (left.number() == right.number()),
{
}

} // verus!
