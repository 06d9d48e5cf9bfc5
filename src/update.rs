use vstd::prelude::*;

verus! {

/// The kind of change a push notification announces. The numeric code of each
/// kind is what the client sees on the wire.
#[derive(Clone, Copy, Debug, PartialEq, Eq, Structural)]
pub enum UpdateType {
    SyncCipherUpdate,
    SyncCipherCreate,
    SyncLoginDelete,
    SyncFolderDelete,
    SyncCiphers,
    SyncVault,
    SyncOrgKeys,
    SyncFolderCreate,
    SyncFolderUpdate,
    SyncCipherDelete,
    SyncSettings,
    LogOut,
}

/// The wire code of each update kind, as the client enumerates them.
pub open spec fn update_code(ut: UpdateType) -> int {
    match ut {
        UpdateType::SyncCipherUpdate => 0,
        UpdateType::SyncCipherCreate => 1,
        UpdateType::SyncLoginDelete => 2,
        UpdateType::SyncFolderDelete => 3,
        UpdateType::SyncCiphers => 4,
        UpdateType::SyncVault => 5,
        UpdateType::SyncOrgKeys => 6,
        UpdateType::SyncFolderCreate => 7,
        UpdateType::SyncFolderUpdate => 8,
        UpdateType::SyncCipherDelete => 9,
        UpdateType::SyncSettings => 10,
        UpdateType::LogOut => 11,
    }
}

impl UpdateType {
    /// The numeric code sent to the client for this kind.
    pub fn code(&self) -> (r: i32)
        ensures
            r as int == update_code(*self),
    {
        match self {
            UpdateType::SyncCipherUpdate => 0,
            UpdateType::SyncCipherCreate => 1,
            UpdateType::SyncLoginDelete => 2,
            UpdateType::SyncFolderDelete => 3,
            UpdateType::SyncCiphers => 4,
            UpdateType::SyncVault => 5,
            UpdateType::SyncOrgKeys => 6,
            UpdateType::SyncFolderCreate => 7,
            UpdateType::SyncFolderUpdate => 8,
            UpdateType::SyncCipherDelete => 9,
            UpdateType::SyncSettings => 10,
            UpdateType::LogOut => 11,
        }
    }
}

} // verus!
