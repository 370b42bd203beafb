//! RMC result codes: an error category in the high half of the code and
//! the error within the category in the low half, with the top bit set.

use vstd::prelude::*;

verus! {

#[derive(Debug, Clone, Copy, PartialEq, Eq, Structural)]
pub enum CoreError {
    Unknown,
    NotImplemented,
    InvalidPointer,
    OperationAborted,
    Exception,
    AccessDenied,
    InvalidHandle,
    InvalidIndex,
    OutOfMemory,
    InvalidArgument,
    Timeout,
    InitializationFailure,
    CallInitiationFailure,
    RegistrationError,
    BufferOverflow,
    InvalidLockState,
    InvalidSequence,
    SystemError,
    Cancelled,
}

impl CoreError {
    /// The code of the error within its category.
    pub open spec fn spec_code(self) -> u16 {
        match self {
            CoreError::Unknown => 0x0001,
            CoreError::NotImplemented => 0x0002,
            CoreError::InvalidPointer => 0x0003,
            CoreError::OperationAborted => 0x0004,
            CoreError::Exception => 0x0005,
            CoreError::AccessDenied => 0x0006,
            CoreError::InvalidHandle => 0x0007,
            CoreError::InvalidIndex => 0x0008,
            CoreError::OutOfMemory => 0x0009,
            CoreError::InvalidArgument => 0x000A,
            CoreError::Timeout => 0x000B,
            CoreError::InitializationFailure => 0x000C,
            CoreError::CallInitiationFailure => 0x000D,
            CoreError::RegistrationError => 0x000E,
            CoreError::BufferOverflow => 0x000F,
            CoreError::InvalidLockState => 0x0010,
            CoreError::InvalidSequence => 0x0011,
            CoreError::SystemError => 0x0012,
            CoreError::Cancelled => 0x0013,
        }
    }

    /// The error with the given code, if any.
    pub open spec fn spec_from_code(v: u16) -> Option<CoreError> {
        if v == 0x0001 {
            Some(CoreError::Unknown)
        } else if v == 0x0002 {
            Some(CoreError::NotImplemented)
        } else if v == 0x0003 {
            Some(CoreError::InvalidPointer)
        } else if v == 0x0004 {
            Some(CoreError::OperationAborted)
        } else if v == 0x0005 {
            Some(CoreError::Exception)
        } else if v == 0x0006 {
            Some(CoreError::AccessDenied)
        } else if v == 0x0007 {
            Some(CoreError::InvalidHandle)
        } else if v == 0x0008 {
            Some(CoreError::InvalidIndex)
        } else if v == 0x0009 {
            Some(CoreError::OutOfMemory)
        } else if v == 0x000A {
            Some(CoreError::InvalidArgument)
        } else if v == 0x000B {
            Some(CoreError::Timeout)
        } else if v == 0x000C {
            Some(CoreError::InitializationFailure)
        } else if v == 0x000D {
            Some(CoreError::CallInitiationFailure)
        } else if v == 0x000E {
            Some(CoreError::RegistrationError)
        } else if v == 0x000F {
            Some(CoreError::BufferOverflow)
        } else if v == 0x0010 {
            Some(CoreError::InvalidLockState)
        } else if v == 0x0011 {
            Some(CoreError::InvalidSequence)
        } else if v == 0x0012 {
            Some(CoreError::SystemError)
        } else if v == 0x0013 {
            Some(CoreError::Cancelled)
        } else {
            None
        }
    }

    pub fn to_code(self) -> (r: u16)
        ensures
            r == self.spec_code(),
    {
        match self {
            CoreError::Unknown => 0x0001,
            CoreError::NotImplemented => 0x0002,
            CoreError::InvalidPointer => 0x0003,
            CoreError::OperationAborted => 0x0004,
            CoreError::Exception => 0x0005,
            CoreError::AccessDenied => 0x0006,
            CoreError::InvalidHandle => 0x0007,
            CoreError::InvalidIndex => 0x0008,
            CoreError::OutOfMemory => 0x0009,
            CoreError::InvalidArgument => 0x000A,
            CoreError::Timeout => 0x000B,
            CoreError::InitializationFailure => 0x000C,
            CoreError::CallInitiationFailure => 0x000D,
            CoreError::RegistrationError => 0x000E,
            CoreError::BufferOverflow => 0x000F,
            CoreError::InvalidLockState => 0x0010,
            CoreError::InvalidSequence => 0x0011,
            CoreError::SystemError => 0x0012,
            CoreError::Cancelled => 0x0013,
        }
    }

    /// The error with the given code, or `None`.
    pub fn try_from_code(v: u16) -> (r: Option<CoreError>)
        ensures
            r == CoreError::spec_from_code(v),
    {
        match v {
            0x0001 => Some(CoreError::Unknown),
            0x0002 => Some(CoreError::NotImplemented),
            0x0003 => Some(CoreError::InvalidPointer),
            0x0004 => Some(CoreError::OperationAborted),
            0x0005 => Some(CoreError::Exception),
            0x0006 => Some(CoreError::AccessDenied),
            0x0007 => Some(CoreError::InvalidHandle),
            0x0008 => Some(CoreError::InvalidIndex),
            0x0009 => Some(CoreError::OutOfMemory),
            0x000A => Some(CoreError::InvalidArgument),
            0x000B => Some(CoreError::Timeout),
            0x000C => Some(CoreError::InitializationFailure),
            0x000D => Some(CoreError::CallInitiationFailure),
            0x000E => Some(CoreError::RegistrationError),
            0x000F => Some(CoreError::BufferOverflow),
            0x0010 => Some(CoreError::InvalidLockState),
            0x0011 => Some(CoreError::InvalidSequence),
            0x0012 => Some(CoreError::SystemError),
            0x0013 => Some(CoreError::Cancelled),
            _ => None,
        }
    }
}

#[derive(Debug, Clone, Copy, PartialEq, Eq, Structural)]
pub enum DDLError {
    InvalidSignature,
    IncorrectVersion,
}

impl DDLError {
    /// The code of the error within its category.
    pub open spec fn spec_code(self) -> u16 {
        match self {
            DDLError::InvalidSignature => 0x0001,
            DDLError::IncorrectVersion => 0x0002,
        }
    }

    /// The error with the given code, if any.
    pub open spec fn spec_from_code(v: u16) -> Option<DDLError> {
        if v == 0x0001 {
            Some(DDLError::InvalidSignature)
        } else if v == 0x0002 {
            Some(DDLError::IncorrectVersion)
        } else {
            None
        }
    }

    pub fn to_code(self) -> (r: u16)
        ensures
            r == self.spec_code(),
    {
        match self {
            DDLError::InvalidSignature => 0x0001,
            DDLError::IncorrectVersion => 0x0002,
        }
    }

    /// The error with the given code, or `None`.
    pub fn try_from_code(v: u16) -> (r: Option<DDLError>)
        ensures
            r == DDLError::spec_from_code(v),
    {
        match v {
            0x0001 => Some(DDLError::InvalidSignature),
            0x0002 => Some(DDLError::IncorrectVersion),
            _ => None,
        }
    }
}

#[derive(Debug, Clone, Copy, PartialEq, Eq, Structural)]
pub enum RendezVousError {
    ConnectionFailure,
    NotAuthenticated,
    InvalidUsername,
    InvalidPassword,
    UsernameAlreadyExists,
    AccountDisabled,
    AccountExpired,
    ConcurrentLoginDenied,
    EncryptionFailure,
    InvalidPID,
    MaxConnectionsReached,
    InvalidGID,
    InvalidControlScriptID,
    InvalidOperationInLiveEnvironment,
    DuplicateEntry,
    ControlScriptFailure,
    ClassNotFound,
    SessionVoid,
    DDLMismatch,
    InvalidConfiguration,
    SessionFull,
    InvalidGatheringPassword,
    WithoutParticipationPeriod,
    PersistentGatheringCreationMax,
    PersistentGatheringParticipationMax,
    DeniedByParticipants,
    ParticipantInBlackList,
    GameServerMaintenance,
    OperationPostpone,
    OutOfRatingRange,
    ConnectionDisconnected,
    InvalidOperation,
    NotParticipatedGathering,
    MatchmakeSessionUserPasswordUnmatch,
    MatchmakeSessionSystemPasswordUnmatch,
    UserIsOffline,
    AlreadyParticipatedGathering,
    PermissionDenied,
    NotFriend,
    SessionClosed,
    DatabaseTemporarilyUnavailable,
    InvalidUniqueId,
    MatchmakingWithdrawn,
    LimitExceeded,
    AccountTemporarilyDisabled,
    PartiallyServiceClosed,
    ConnectionDisconnectedForConcurrentLogin,
}

impl RendezVousError {
    /// The code of the error within its category.
    pub open spec fn spec_code(self) -> u16 {
        match self {
            RendezVousError::ConnectionFailure => 0x0001,
            RendezVousError::NotAuthenticated => 0x0002,
            RendezVousError::InvalidUsername => 0x0064,
            RendezVousError::InvalidPassword => 0x0065,
            RendezVousError::UsernameAlreadyExists => 0x0066,
            RendezVousError::AccountDisabled => 0x0067,
            RendezVousError::AccountExpired => 0x0068,
            RendezVousError::ConcurrentLoginDenied => 0x0069,
            RendezVousError::EncryptionFailure => 0x006A,
            RendezVousError::InvalidPID => 0x006B,
            RendezVousError::MaxConnectionsReached => 0x006C,
            RendezVousError::InvalidGID => 0x006D,
            RendezVousError::InvalidControlScriptID => 0x006E,
            RendezVousError::InvalidOperationInLiveEnvironment => 0x006F,
            RendezVousError::DuplicateEntry => 0x0070,
            RendezVousError::ControlScriptFailure => 0x0071,
            RendezVousError::ClassNotFound => 0x0072,
            RendezVousError::SessionVoid => 0x0073,
            RendezVousError::DDLMismatch => 0x0075,
            RendezVousError::InvalidConfiguration => 0x0076,
            RendezVousError::SessionFull => 0x00C8,
            RendezVousError::InvalidGatheringPassword => 0x00C9,
            RendezVousError::WithoutParticipationPeriod => 0x00CA,
            RendezVousError::PersistentGatheringCreationMax => 0x00CB,
            RendezVousError::PersistentGatheringParticipationMax => 0x00CC,
            RendezVousError::DeniedByParticipants => 0x00CD,
            RendezVousError::ParticipantInBlackList => 0x00CE,
            RendezVousError::GameServerMaintenance => 0x00CF,
            RendezVousError::OperationPostpone => 0x00D0,
            RendezVousError::OutOfRatingRange => 0x00D1,
            RendezVousError::ConnectionDisconnected => 0x00D2,
            RendezVousError::InvalidOperation => 0x00D3,
            RendezVousError::NotParticipatedGathering => 0x00D4,
            RendezVousError::MatchmakeSessionUserPasswordUnmatch => 0x00D5,
            RendezVousError::MatchmakeSessionSystemPasswordUnmatch => 0x00D6,
            RendezVousError::UserIsOffline => 0x00D7,
            RendezVousError::AlreadyParticipatedGathering => 0x00D8,
            RendezVousError::PermissionDenied => 0x00D9,
            RendezVousError::NotFriend => 0x00DA,
            RendezVousError::SessionClosed => 0x00DB,
            RendezVousError::DatabaseTemporarilyUnavailable => 0x00DC,
            RendezVousError::InvalidUniqueId => 0x00DD,
            RendezVousError::MatchmakingWithdrawn => 0x00DE,
            RendezVousError::LimitExceeded => 0x00DF,
            RendezVousError::AccountTemporarilyDisabled => 0x00E0,
            RendezVousError::PartiallyServiceClosed => 0x00E1,
            RendezVousError::ConnectionDisconnectedForConcurrentLogin => 0x00E2,
        }
    }

    /// The error with the given code, if any.
    pub open spec fn spec_from_code(v: u16) -> Option<RendezVousError> {
        if v == 0x0001 {
            Some(RendezVousError::ConnectionFailure)
        } else if v == 0x0002 {
            Some(RendezVousError::NotAuthenticated)
        } else if v == 0x0064 {
            Some(RendezVousError::InvalidUsername)
        } else if v == 0x0065 {
            Some(RendezVousError::InvalidPassword)
        } else if v == 0x0066 {
            Some(RendezVousError::UsernameAlreadyExists)
        } else if v == 0x0067 {
            Some(RendezVousError::AccountDisabled)
        } else if v == 0x0068 {
            Some(RendezVousError::AccountExpired)
        } else if v == 0x0069 {
            Some(RendezVousError::ConcurrentLoginDenied)
        } else if v == 0x006A {
            Some(RendezVousError::EncryptionFailure)
        } else if v == 0x006B {
            Some(RendezVousError::InvalidPID)
        } else if v == 0x006C {
            Some(RendezVousError::MaxConnectionsReached)
        } else if v == 0x006D {
            Some(RendezVousError::InvalidGID)
        } else if v == 0x006E {
            Some(RendezVousError::InvalidControlScriptID)
        } else if v == 0x006F {
            Some(RendezVousError::InvalidOperationInLiveEnvironment)
        } else if v == 0x0070 {
            Some(RendezVousError::DuplicateEntry)
        } else if v == 0x0071 {
            Some(RendezVousError::ControlScriptFailure)
        } else if v == 0x0072 {
            Some(RendezVousError::ClassNotFound)
        } else if v == 0x0073 {
            Some(RendezVousError::SessionVoid)
        } else if v == 0x0075 {
            Some(RendezVousError::DDLMismatch)
        } else if v == 0x0076 {
            Some(RendezVousError::InvalidConfiguration)
        } else if v == 0x00C8 {
            Some(RendezVousError::SessionFull)
        } else if v == 0x00C9 {
            Some(RendezVousError::InvalidGatheringPassword)
        } else if v == 0x00CA {
            Some(RendezVousError::WithoutParticipationPeriod)
        } else if v == 0x00CB {
            Some(RendezVousError::PersistentGatheringCreationMax)
        } else if v == 0x00CC {
            Some(RendezVousError::PersistentGatheringParticipationMax)
        } else if v == 0x00CD {
            Some(RendezVousError::DeniedByParticipants)
        } else if v == 0x00CE {
            Some(RendezVousError::ParticipantInBlackList)
        } else if v == 0x00CF {
            Some(RendezVousError::GameServerMaintenance)
        } else if v == 0x00D0 {
            Some(RendezVousError::OperationPostpone)
        } else if v == 0x00D1 {
            Some(RendezVousError::OutOfRatingRange)
        } else if v == 0x00D2 {
            Some(RendezVousError::ConnectionDisconnected)
        } else if v == 0x00D3 {
            Some(RendezVousError::InvalidOperation)
        } else if v == 0x00D4 {
            Some(RendezVousError::NotParticipatedGathering)
        } else if v == 0x00D5 {
            Some(RendezVousError::MatchmakeSessionUserPasswordUnmatch)
        } else if v == 0x00D6 {
            Some(RendezVousError::MatchmakeSessionSystemPasswordUnmatch)
        } else if v == 0x00D7 {
            Some(RendezVousError::UserIsOffline)
        } else if v == 0x00D8 {
            Some(RendezVousError::AlreadyParticipatedGathering)
        } else if v == 0x00D9 {
            Some(RendezVousError::PermissionDenied)
        } else if v == 0x00DA {
            Some(RendezVousError::NotFriend)
        } else if v == 0x00DB {
            Some(RendezVousError::SessionClosed)
        } else if v == 0x00DC {
            Some(RendezVousError::DatabaseTemporarilyUnavailable)
        } else if v == 0x00DD {
            Some(RendezVousError::InvalidUniqueId)
        } else if v == 0x00DE {
            Some(RendezVousError::MatchmakingWithdrawn)
        } else if v == 0x00DF {
            Some(RendezVousError::LimitExceeded)
        } else if v == 0x00E0 {
            Some(RendezVousError::AccountTemporarilyDisabled)
        } else if v == 0x00E1 {
            Some(RendezVousError::PartiallyServiceClosed)
        } else if v == 0x00E2 {
            Some(RendezVousError::ConnectionDisconnectedForConcurrentLogin)
        } else {
            None
        }
    }

    pub fn to_code(self) -> (r: u16)
        ensures
            r == self.spec_code(),
    {
        match self {
            RendezVousError::ConnectionFailure => 0x0001,
            RendezVousError::NotAuthenticated => 0x0002,
            RendezVousError::InvalidUsername => 0x0064,
            RendezVousError::InvalidPassword => 0x0065,
            RendezVousError::UsernameAlreadyExists => 0x0066,
            RendezVousError::AccountDisabled => 0x0067,
            RendezVousError::AccountExpired => 0x0068,
            RendezVousError::ConcurrentLoginDenied => 0x0069,
            RendezVousError::EncryptionFailure => 0x006A,
            RendezVousError::InvalidPID => 0x006B,
            RendezVousError::MaxConnectionsReached => 0x006C,
            RendezVousError::InvalidGID => 0x006D,
            RendezVousError::InvalidControlScriptID => 0x006E,
            RendezVousError::InvalidOperationInLiveEnvironment => 0x006F,
            RendezVousError::DuplicateEntry => 0x0070,
            RendezVousError::ControlScriptFailure => 0x0071,
            RendezVousError::ClassNotFound => 0x0072,
            RendezVousError::SessionVoid => 0x0073,
            RendezVousError::DDLMismatch => 0x0075,
            RendezVousError::InvalidConfiguration => 0x0076,
            RendezVousError::SessionFull => 0x00C8,
            RendezVousError::InvalidGatheringPassword => 0x00C9,
            RendezVousError::WithoutParticipationPeriod => 0x00CA,
            RendezVousError::PersistentGatheringCreationMax => 0x00CB,
            RendezVousError::PersistentGatheringParticipationMax => 0x00CC,
            RendezVousError::DeniedByParticipants => 0x00CD,
            RendezVousError::ParticipantInBlackList => 0x00CE,
            RendezVousError::GameServerMaintenance => 0x00CF,
            RendezVousError::OperationPostpone => 0x00D0,
            RendezVousError::OutOfRatingRange => 0x00D1,
            RendezVousError::ConnectionDisconnected => 0x00D2,
            RendezVousError::InvalidOperation => 0x00D3,
            RendezVousError::NotParticipatedGathering => 0x00D4,
            RendezVousError::MatchmakeSessionUserPasswordUnmatch => 0x00D5,
            RendezVousError::MatchmakeSessionSystemPasswordUnmatch => 0x00D6,
            RendezVousError::UserIsOffline => 0x00D7,
            RendezVousError::AlreadyParticipatedGathering => 0x00D8,
            RendezVousError::PermissionDenied => 0x00D9,
            RendezVousError::NotFriend => 0x00DA,
            RendezVousError::SessionClosed => 0x00DB,
            RendezVousError::DatabaseTemporarilyUnavailable => 0x00DC,
            RendezVousError::InvalidUniqueId => 0x00DD,
            RendezVousError::MatchmakingWithdrawn => 0x00DE,
            RendezVousError::LimitExceeded => 0x00DF,
            RendezVousError::AccountTemporarilyDisabled => 0x00E0,
            RendezVousError::PartiallyServiceClosed => 0x00E1,
            RendezVousError::ConnectionDisconnectedForConcurrentLogin => 0x00E2,
        }
    }

    /// The error with the given code, or `None`.
    pub fn try_from_code(v: u16) -> (r: Option<RendezVousError>)
        ensures
            r == RendezVousError::spec_from_code(v),
    {
        match v {
            0x0001 => Some(RendezVousError::ConnectionFailure),
            0x0002 => Some(RendezVousError::NotAuthenticated),
            0x0064 => Some(RendezVousError::InvalidUsername),
            0x0065 => Some(RendezVousError::InvalidPassword),
            0x0066 => Some(RendezVousError::UsernameAlreadyExists),
            0x0067 => Some(RendezVousError::AccountDisabled),
            0x0068 => Some(RendezVousError::AccountExpired),
            0x0069 => Some(RendezVousError::ConcurrentLoginDenied),
            0x006A => Some(RendezVousError::EncryptionFailure),
            0x006B => Some(RendezVousError::InvalidPID),
            0x006C => Some(RendezVousError::MaxConnectionsReached),
            0x006D => Some(RendezVousError::InvalidGID),
            0x006E => Some(RendezVousError::InvalidControlScriptID),
            0x006F => Some(RendezVousError::InvalidOperationInLiveEnvironment),
            0x0070 => Some(RendezVousError::DuplicateEntry),
            0x0071 => Some(RendezVousError::ControlScriptFailure),
            0x0072 => Some(RendezVousError::ClassNotFound),
            0x0073 => Some(RendezVousError::SessionVoid),
            0x0075 => Some(RendezVousError::DDLMismatch),
            0x0076 => Some(RendezVousError::InvalidConfiguration),
            0x00C8 => Some(RendezVousError::SessionFull),
            0x00C9 => Some(RendezVousError::InvalidGatheringPassword),
            0x00CA => Some(RendezVousError::WithoutParticipationPeriod),
            0x00CB => Some(RendezVousError::PersistentGatheringCreationMax),
            0x00CC => Some(RendezVousError::PersistentGatheringParticipationMax),
            0x00CD => Some(RendezVousError::DeniedByParticipants),
            0x00CE => Some(RendezVousError::ParticipantInBlackList),
            0x00CF => Some(RendezVousError::GameServerMaintenance),
            0x00D0 => Some(RendezVousError::OperationPostpone),
            0x00D1 => Some(RendezVousError::OutOfRatingRange),
            0x00D2 => Some(RendezVousError::ConnectionDisconnected),
            0x00D3 => Some(RendezVousError::InvalidOperation),
            0x00D4 => Some(RendezVousError::NotParticipatedGathering),
            0x00D5 => Some(RendezVousError::MatchmakeSessionUserPasswordUnmatch),
            0x00D6 => Some(RendezVousError::MatchmakeSessionSystemPasswordUnmatch),
            0x00D7 => Some(RendezVousError::UserIsOffline),
            0x00D8 => Some(RendezVousError::AlreadyParticipatedGathering),
            0x00D9 => Some(RendezVousError::PermissionDenied),
            0x00DA => Some(RendezVousError::NotFriend),
            0x00DB => Some(RendezVousError::SessionClosed),
            0x00DC => Some(RendezVousError::DatabaseTemporarilyUnavailable),
            0x00DD => Some(RendezVousError::InvalidUniqueId),
            0x00DE => Some(RendezVousError::MatchmakingWithdrawn),
            0x00DF => Some(RendezVousError::LimitExceeded),
            0x00E0 => Some(RendezVousError::AccountTemporarilyDisabled),
            0x00E1 => Some(RendezVousError::PartiallyServiceClosed),
            0x00E2 => Some(RendezVousError::ConnectionDisconnectedForConcurrentLogin),
            _ => None,
        }
    }
}

#[derive(Debug, Clone, Copy, PartialEq, Eq, Structural)]
pub enum PythonCoreError {
    Exception,
    TypeError,
    IndexError,
    InvalidReference,
    CallFailure,
    MemoryError,
    KeyError,
    OperationError,
    ConversionError,
    ValidationError,
}

impl PythonCoreError {
    /// The code of the error within its category.
    pub open spec fn spec_code(self) -> u16 {
        match self {
            PythonCoreError::Exception => 0x0001,
            PythonCoreError::TypeError => 0x0002,
            PythonCoreError::IndexError => 0x0003,
            PythonCoreError::InvalidReference => 0x0004,
            PythonCoreError::CallFailure => 0x0005,
            PythonCoreError::MemoryError => 0x0006,
            PythonCoreError::KeyError => 0x0007,
            PythonCoreError::OperationError => 0x0008,
            PythonCoreError::ConversionError => 0x0009,
            PythonCoreError::ValidationError => 0x000A,
        }
    }

    /// The error with the given code, if any.
    pub open spec fn spec_from_code(v: u16) -> Option<PythonCoreError> {
        if v == 0x0001 {
            Some(PythonCoreError::Exception)
        } else if v == 0x0002 {
            Some(PythonCoreError::TypeError)
        } else if v == 0x0003 {
            Some(PythonCoreError::IndexError)
        } else if v == 0x0004 {
            Some(PythonCoreError::InvalidReference)
        } else if v == 0x0005 {
            Some(PythonCoreError::CallFailure)
        } else if v == 0x0006 {
            Some(PythonCoreError::MemoryError)
        } else if v == 0x0007 {
            Some(PythonCoreError::KeyError)
        } else if v == 0x0008 {
            Some(PythonCoreError::OperationError)
        } else if v == 0x0009 {
            Some(PythonCoreError::ConversionError)
        } else if v == 0x000A {
            Some(PythonCoreError::ValidationError)
        } else {
            None
        }
    }

    pub fn to_code(self) -> (r: u16)
        ensures
            r == self.spec_code(),
    {
        match self {
            PythonCoreError::Exception => 0x0001,
            PythonCoreError::TypeError => 0x0002,
            PythonCoreError::IndexError => 0x0003,
            PythonCoreError::InvalidReference => 0x0004,
            PythonCoreError::CallFailure => 0x0005,
            PythonCoreError::MemoryError => 0x0006,
            PythonCoreError::KeyError => 0x0007,
            PythonCoreError::OperationError => 0x0008,
            PythonCoreError::ConversionError => 0x0009,
            PythonCoreError::ValidationError => 0x000A,
        }
    }

    /// The error with the given code, or `None`.
    pub fn try_from_code(v: u16) -> (r: Option<PythonCoreError>)
        ensures
            r == PythonCoreError::spec_from_code(v),
    {
        match v {
            0x0001 => Some(PythonCoreError::Exception),
            0x0002 => Some(PythonCoreError::TypeError),
            0x0003 => Some(PythonCoreError::IndexError),
            0x0004 => Some(PythonCoreError::InvalidReference),
            0x0005 => Some(PythonCoreError::CallFailure),
            0x0006 => Some(PythonCoreError::MemoryError),
            0x0007 => Some(PythonCoreError::KeyError),
            0x0008 => Some(PythonCoreError::OperationError),
            0x0009 => Some(PythonCoreError::ConversionError),
            0x000A => Some(PythonCoreError::ValidationError),
            _ => None,
        }
    }
}

#[derive(Debug, Clone, Copy, PartialEq, Eq, Structural)]
pub enum TransportError {
    Unknown,
    ConnectionFailure,
    InvalidUrl,
    InvalidKey,
    InvalidURLType,
    DuplicateEndpoint,
    IOError,
    Timeout,
    ConnectionReset,
    IncorrectRemoteAuthentication,
    ServerRequestError,
    DecompressionFailure,
    ReliableSendBufferFullFatal,
    UPnPCannotInit,
    UPnPCannotAddMapping,
    NatPMPCannotInit,
    NatPMPCannotAddMapping,
    UnsupportedNAT,
    DnsError,
    ProxyError,
    DataRemaining,
    NoBuffer,
    NotFound,
    TemporaryServerError,
    PermanentServerError,
    ServiceUnavailable,
    ReliableSendBufferFull,
    InvalidStation,
    InvalidSubStreamID,
    PacketBufferFull,
    NatTraversalError,
    NatCheckError,
}

impl TransportError {
    /// The code of the error within its category.
    pub open spec fn spec_code(self) -> u16 {
        match self {
            TransportError::Unknown => 0x0001,
            TransportError::ConnectionFailure => 0x0002,
            TransportError::InvalidUrl => 0x0003,
            TransportError::InvalidKey => 0x0004,
            TransportError::InvalidURLType => 0x0005,
            TransportError::DuplicateEndpoint => 0x0006,
            TransportError::IOError => 0x0007,
            TransportError::Timeout => 0x0008,
            TransportError::ConnectionReset => 0x0009,
            TransportError::IncorrectRemoteAuthentication => 0x000A,
            TransportError::ServerRequestError => 0x000B,
            TransportError::DecompressionFailure => 0x000C,
            TransportError::ReliableSendBufferFullFatal => 0x000D,
            TransportError::UPnPCannotInit => 0x000E,
            TransportError::UPnPCannotAddMapping => 0x000F,
            TransportError::NatPMPCannotInit => 0x0010,
            TransportError::NatPMPCannotAddMapping => 0x0011,
            TransportError::UnsupportedNAT => 0x0013,
            TransportError::DnsError => 0x0014,
            TransportError::ProxyError => 0x0015,
            TransportError::DataRemaining => 0x0016,
            TransportError::NoBuffer => 0x0017,
            TransportError::NotFound => 0x0018,
            TransportError::TemporaryServerError => 0x0019,
            TransportError::PermanentServerError => 0x001A,
            TransportError::ServiceUnavailable => 0x001B,
            TransportError::ReliableSendBufferFull => 0x001C,
            TransportError::InvalidStation => 0x001D,
            TransportError::InvalidSubStreamID => 0x001E,
            TransportError::PacketBufferFull => 0x001F,
            TransportError::NatTraversalError => 0x0020,
            TransportError::NatCheckError => 0x0021,
        }
    }

    /// The error with the given code, if any.
    pub open spec fn spec_from_code(v: u16) -> Option<TransportError> {
        if v == 0x0001 {
            Some(TransportError::Unknown)
        } else if v == 0x0002 {
            Some(TransportError::ConnectionFailure)
        } else if v == 0x0003 {
            Some(TransportError::InvalidUrl)
        } else if v == 0x0004 {
            Some(TransportError::InvalidKey)
        } else if v == 0x0005 {
            Some(TransportError::InvalidURLType)
        } else if v == 0x0006 {
            Some(TransportError::DuplicateEndpoint)
        } else if v == 0x0007 {
            Some(TransportError::IOError)
        } else if v == 0x0008 {
            Some(TransportError::Timeout)
        } else if v == 0x0009 {
            Some(TransportError::ConnectionReset)
        } else if v == 0x000A {
            Some(TransportError::IncorrectRemoteAuthentication)
        } else if v == 0x000B {
            Some(TransportError::ServerRequestError)
        } else if v == 0x000C {
            Some(TransportError::DecompressionFailure)
        } else if v == 0x000D {
            Some(TransportError::ReliableSendBufferFullFatal)
        } else if v == 0x000E {
            Some(TransportError::UPnPCannotInit)
        } else if v == 0x000F {
            Some(TransportError::UPnPCannotAddMapping)
        } else if v == 0x0010 {
            Some(TransportError::NatPMPCannotInit)
        } else if v == 0x0011 {
            Some(TransportError::NatPMPCannotAddMapping)
        } else if v == 0x0013 {
            Some(TransportError::UnsupportedNAT)
        } else if v == 0x0014 {
            Some(TransportError::DnsError)
        } else if v == 0x0015 {
            Some(TransportError::ProxyError)
        } else if v == 0x0016 {
            Some(TransportError::DataRemaining)
        } else if v == 0x0017 {
            Some(TransportError::NoBuffer)
        } else if v == 0x0018 {
            Some(TransportError::NotFound)
        } else if v == 0x0019 {
            Some(TransportError::TemporaryServerError)
        } else if v == 0x001A {
            Some(TransportError::PermanentServerError)
        } else if v == 0x001B {
            Some(TransportError::ServiceUnavailable)
        } else if v == 0x001C {
            Some(TransportError::ReliableSendBufferFull)
        } else if v == 0x001D {
            Some(TransportError::InvalidStation)
        } else if v == 0x001E {
            Some(TransportError::InvalidSubStreamID)
        } else if v == 0x001F {
            Some(TransportError::PacketBufferFull)
        } else if v == 0x0020 {
            Some(TransportError::NatTraversalError)
        } else if v == 0x0021 {
            Some(TransportError::NatCheckError)
        } else {
            None
        }
    }

    pub fn to_code(self) -> (r: u16)
        ensures
            r == self.spec_code(),
    {
        match self {
            TransportError::Unknown => 0x0001,
            TransportError::ConnectionFailure => 0x0002,
            TransportError::InvalidUrl => 0x0003,
            TransportError::InvalidKey => 0x0004,
            TransportError::InvalidURLType => 0x0005,
            TransportError::DuplicateEndpoint => 0x0006,
            TransportError::IOError => 0x0007,
            TransportError::Timeout => 0x0008,
            TransportError::ConnectionReset => 0x0009,
            TransportError::IncorrectRemoteAuthentication => 0x000A,
            TransportError::ServerRequestError => 0x000B,
            TransportError::DecompressionFailure => 0x000C,
            TransportError::ReliableSendBufferFullFatal => 0x000D,
            TransportError::UPnPCannotInit => 0x000E,
            TransportError::UPnPCannotAddMapping => 0x000F,
            TransportError::NatPMPCannotInit => 0x0010,
            TransportError::NatPMPCannotAddMapping => 0x0011,
            TransportError::UnsupportedNAT => 0x0013,
            TransportError::DnsError => 0x0014,
            TransportError::ProxyError => 0x0015,
            TransportError::DataRemaining => 0x0016,
            TransportError::NoBuffer => 0x0017,
            TransportError::NotFound => 0x0018,
            TransportError::TemporaryServerError => 0x0019,
            TransportError::PermanentServerError => 0x001A,
            TransportError::ServiceUnavailable => 0x001B,
            TransportError::ReliableSendBufferFull => 0x001C,
            TransportError::InvalidStation => 0x001D,
            TransportError::InvalidSubStreamID => 0x001E,
            TransportError::PacketBufferFull => 0x001F,
            TransportError::NatTraversalError => 0x0020,
            TransportError::NatCheckError => 0x0021,
        }
    }

    /// The error with the given code, or `None`.
    pub fn try_from_code(v: u16) -> (r: Option<TransportError>)
        ensures
            r == TransportError::spec_from_code(v),
    {
        match v {
            0x0001 => Some(TransportError::Unknown),
            0x0002 => Some(TransportError::ConnectionFailure),
            0x0003 => Some(TransportError::InvalidUrl),
            0x0004 => Some(TransportError::InvalidKey),
            0x0005 => Some(TransportError::InvalidURLType),
            0x0006 => Some(TransportError::DuplicateEndpoint),
            0x0007 => Some(TransportError::IOError),
            0x0008 => Some(TransportError::Timeout),
            0x0009 => Some(TransportError::ConnectionReset),
            0x000A => Some(TransportError::IncorrectRemoteAuthentication),
            0x000B => Some(TransportError::ServerRequestError),
            0x000C => Some(TransportError::DecompressionFailure),
            0x000D => Some(TransportError::ReliableSendBufferFullFatal),
            0x000E => Some(TransportError::UPnPCannotInit),
            0x000F => Some(TransportError::UPnPCannotAddMapping),
            0x0010 => Some(TransportError::NatPMPCannotInit),
            0x0011 => Some(TransportError::NatPMPCannotAddMapping),
            0x0013 => Some(TransportError::UnsupportedNAT),
            0x0014 => Some(TransportError::DnsError),
            0x0015 => Some(TransportError::ProxyError),
            0x0016 => Some(TransportError::DataRemaining),
            0x0017 => Some(TransportError::NoBuffer),
            0x0018 => Some(TransportError::NotFound),
            0x0019 => Some(TransportError::TemporaryServerError),
            0x001A => Some(TransportError::PermanentServerError),
            0x001B => Some(TransportError::ServiceUnavailable),
            0x001C => Some(TransportError::ReliableSendBufferFull),
            0x001D => Some(TransportError::InvalidStation),
            0x001E => Some(TransportError::InvalidSubStreamID),
            0x001F => Some(TransportError::PacketBufferFull),
            0x0020 => Some(TransportError::NatTraversalError),
            0x0021 => Some(TransportError::NatCheckError),
            _ => None,
        }
    }
}

#[derive(Debug, Clone, Copy, PartialEq, Eq, Structural)]
pub enum DOCoreError {
    StationNotReached,
    TargetStationDisconnect,
    LocalStationLeaving,
    ObjectNotFound,
    InvalidRole,
    CallTimeout,
    RMCDispatchFailed,
    MigrationInProgress,
    NoAuthority,
    NoTargetStationSpecified,
    JoinFailed,
    JoinDenied,
    ConnectivityTestFailed,
    Unknown,
    UnfreedReferences,
    JobTerminationFailed,
    InvalidState,
    FaultRecoveryFatal,
    FaultRecoveryJobProcessFailed,
    StationInconsitency,
    AbnormalMasterState,
    VersionMismatch,
}

impl DOCoreError {
    /// The code of the error within its category.
    pub open spec fn spec_code(self) -> u16 {
        match self {
            DOCoreError::StationNotReached => 0x0001,
            DOCoreError::TargetStationDisconnect => 0x0002,
            DOCoreError::LocalStationLeaving => 0x0003,
            DOCoreError::ObjectNotFound => 0x0004,
            DOCoreError::InvalidRole => 0x0005,
            DOCoreError::CallTimeout => 0x0006,
            DOCoreError::RMCDispatchFailed => 0x0007,
            DOCoreError::MigrationInProgress => 0x0008,
            DOCoreError::NoAuthority => 0x0009,
            DOCoreError::NoTargetStationSpecified => 0x000A,
            DOCoreError::JoinFailed => 0x000B,
            DOCoreError::JoinDenied => 0x000C,
            DOCoreError::ConnectivityTestFailed => 0x000D,
            DOCoreError::Unknown => 0x000E,
            DOCoreError::UnfreedReferences => 0x000F,
            DOCoreError::JobTerminationFailed => 0x0010,
            DOCoreError::InvalidState => 0x0011,
            DOCoreError::FaultRecoveryFatal => 0x0012,
            DOCoreError::FaultRecoveryJobProcessFailed => 0x0013,
            DOCoreError::StationInconsitency => 0x0014,
            DOCoreError::AbnormalMasterState => 0x0015,
            DOCoreError::VersionMismatch => 0x0016,
        }
    }

    /// The error with the given code, if any.
    pub open spec fn spec_from_code(v: u16) -> Option<DOCoreError> {
        if v == 0x0001 {
            Some(DOCoreError::StationNotReached)
        } else if v == 0x0002 {
            Some(DOCoreError::TargetStationDisconnect)
        } else if v == 0x0003 {
            Some(DOCoreError::LocalStationLeaving)
        } else if v == 0x0004 {
            Some(DOCoreError::ObjectNotFound)
        } else if v == 0x0005 {
            Some(DOCoreError::InvalidRole)
        } else if v == 0x0006 {
            Some(DOCoreError::CallTimeout)
        } else if v == 0x0007 {
            Some(DOCoreError::RMCDispatchFailed)
        } else if v == 0x0008 {
            Some(DOCoreError::MigrationInProgress)
        } else if v == 0x0009 {
            Some(DOCoreError::NoAuthority)
        } else if v == 0x000A {
            Some(DOCoreError::NoTargetStationSpecified)
        } else if v == 0x000B {
            Some(DOCoreError::JoinFailed)
        } else if v == 0x000C {
            Some(DOCoreError::JoinDenied)
        } else if v == 0x000D {
            Some(DOCoreError::ConnectivityTestFailed)
        } else if v == 0x000E {
            Some(DOCoreError::Unknown)
        } else if v == 0x000F {
            Some(DOCoreError::UnfreedReferences)
        } else if v == 0x0010 {
            Some(DOCoreError::JobTerminationFailed)
        } else if v == 0x0011 {
            Some(DOCoreError::InvalidState)
        } else if v == 0x0012 {
            Some(DOCoreError::FaultRecoveryFatal)
        } else if v == 0x0013 {
            Some(DOCoreError::FaultRecoveryJobProcessFailed)
        } else if v == 0x0014 {
            Some(DOCoreError::StationInconsitency)
        } else if v == 0x0015 {
            Some(DOCoreError::AbnormalMasterState)
        } else if v == 0x0016 {
            Some(DOCoreError::VersionMismatch)
        } else {
            None
        }
    }

    pub fn to_code(self) -> (r: u16)
        ensures
            r == self.spec_code(),
    {
        match self {
            DOCoreError::StationNotReached => 0x0001,
            DOCoreError::TargetStationDisconnect => 0x0002,
            DOCoreError::LocalStationLeaving => 0x0003,
            DOCoreError::ObjectNotFound => 0x0004,
            DOCoreError::InvalidRole => 0x0005,
            DOCoreError::CallTimeout => 0x0006,
            DOCoreError::RMCDispatchFailed => 0x0007,
            DOCoreError::MigrationInProgress => 0x0008,
            DOCoreError::NoAuthority => 0x0009,
            DOCoreError::NoTargetStationSpecified => 0x000A,
            DOCoreError::JoinFailed => 0x000B,
            DOCoreError::JoinDenied => 0x000C,
            DOCoreError::ConnectivityTestFailed => 0x000D,
            DOCoreError::Unknown => 0x000E,
            DOCoreError::UnfreedReferences => 0x000F,
            DOCoreError::JobTerminationFailed => 0x0010,
            DOCoreError::InvalidState => 0x0011,
            DOCoreError::FaultRecoveryFatal => 0x0012,
            DOCoreError::FaultRecoveryJobProcessFailed => 0x0013,
            DOCoreError::StationInconsitency => 0x0014,
            DOCoreError::AbnormalMasterState => 0x0015,
            DOCoreError::VersionMismatch => 0x0016,
        }
    }

    /// The error with the given code, or `None`.
    pub fn try_from_code(v: u16) -> (r: Option<DOCoreError>)
        ensures
            r == DOCoreError::spec_from_code(v),
    {
        match v {
            0x0001 => Some(DOCoreError::StationNotReached),
            0x0002 => Some(DOCoreError::TargetStationDisconnect),
            0x0003 => Some(DOCoreError::LocalStationLeaving),
            0x0004 => Some(DOCoreError::ObjectNotFound),
            0x0005 => Some(DOCoreError::InvalidRole),
            0x0006 => Some(DOCoreError::CallTimeout),
            0x0007 => Some(DOCoreError::RMCDispatchFailed),
            0x0008 => Some(DOCoreError::MigrationInProgress),
            0x0009 => Some(DOCoreError::NoAuthority),
            0x000A => Some(DOCoreError::NoTargetStationSpecified),
            0x000B => Some(DOCoreError::JoinFailed),
            0x000C => Some(DOCoreError::JoinDenied),
            0x000D => Some(DOCoreError::ConnectivityTestFailed),
            0x000E => Some(DOCoreError::Unknown),
            0x000F => Some(DOCoreError::UnfreedReferences),
            0x0010 => Some(DOCoreError::JobTerminationFailed),
            0x0011 => Some(DOCoreError::InvalidState),
            0x0012 => Some(DOCoreError::FaultRecoveryFatal),
            0x0013 => Some(DOCoreError::FaultRecoveryJobProcessFailed),
            0x0014 => Some(DOCoreError::StationInconsitency),
            0x0015 => Some(DOCoreError::AbnormalMasterState),
            0x0016 => Some(DOCoreError::VersionMismatch),
            _ => None,
        }
    }
}

#[derive(Debug, Clone, Copy, PartialEq, Eq, Structural)]
pub enum FPDError {
    NotInitialized,
    AlreadyInitialized,
    NotConnected,
    Connected,
    InitializationFailure,
    OutOfMemory,
    RmcFailed,
    InvalidArgument,
    InvalidLocalAccountID,
    InvalidPrincipalID,
    InvalidLocalFriendCode,
    LocalAccountNotExists,
    LocalAccountNotLoaded,
    LocalAccountAlreadyLoaded,
    FriendAlreadyExists,
    FriendNotExists,
    FriendNumMax,
    NotFriend,
    FileIO,
    P2PInternetProhibited,
    Unknown,
    InvalidState,
    AddFriendProhibited,
    InvalidAccount,
    BlacklistedByMe,
    FriendAlreadyAdded,
    MyFriendListLimitExceed,
    RequestLimitExceed,
    InvalidMessageID,
    MessageIsNotMine,
    MessageIsNotForMe,
    FriendRequestBlocked,
    NotInMyFriendList,
    FriendListedByMe,
    NotInMyBlacklist,
    IncompatibleAccount,
    BlockSettingChangeNotAllowed,
    SizeLimitExceeded,
    OperationNotAllowed,
    NotNetworkAccount,
    NotificationNotFound,
    PreferenceNotInitialized,
    FriendRequestNotAllowed,
}

impl FPDError {
    /// The code of the error within its category.
    pub open spec fn spec_code(self) -> u16 {
        match self {
            FPDError::NotInitialized => 0x0000,
            FPDError::AlreadyInitialized => 0x0001,
            FPDError::NotConnected => 0x0002,
            FPDError::Connected => 0x0003,
            FPDError::InitializationFailure => 0x0004,
            FPDError::OutOfMemory => 0x0005,
            FPDError::RmcFailed => 0x0006,
            FPDError::InvalidArgument => 0x0007,
            FPDError::InvalidLocalAccountID => 0x0008,
            FPDError::InvalidPrincipalID => 0x0009,
            FPDError::InvalidLocalFriendCode => 0x000A,
            FPDError::LocalAccountNotExists => 0x000B,
            FPDError::LocalAccountNotLoaded => 0x000C,
            FPDError::LocalAccountAlreadyLoaded => 0x000D,
            FPDError::FriendAlreadyExists => 0x000E,
            FPDError::FriendNotExists => 0x000F,
            FPDError::FriendNumMax => 0x0010,
            FPDError::NotFriend => 0x0011,
            FPDError::FileIO => 0x0012,
            FPDError::P2PInternetProhibited => 0x0013,
            FPDError::Unknown => 0x0014,
            FPDError::InvalidState => 0x0015,
            FPDError::AddFriendProhibited => 0x0017,
            FPDError::InvalidAccount => 0x0019,
            FPDError::BlacklistedByMe => 0x001A,
            FPDError::FriendAlreadyAdded => 0x001C,
            FPDError::MyFriendListLimitExceed => 0x001D,
            FPDError::RequestLimitExceed => 0x001E,
            FPDError::InvalidMessageID => 0x001F,
            FPDError::MessageIsNotMine => 0x0020,
            FPDError::MessageIsNotForMe => 0x0021,
            FPDError::FriendRequestBlocked => 0x0022,
            FPDError::NotInMyFriendList => 0x0023,
            FPDError::FriendListedByMe => 0x0024,
            FPDError::NotInMyBlacklist => 0x0025,
            FPDError::IncompatibleAccount => 0x0026,
            FPDError::BlockSettingChangeNotAllowed => 0x0027,
            FPDError::SizeLimitExceeded => 0x0028,
            FPDError::OperationNotAllowed => 0x0029,
            FPDError::NotNetworkAccount => 0x002A,
            FPDError::NotificationNotFound => 0x002B,
            FPDError::PreferenceNotInitialized => 0x002C,
            FPDError::FriendRequestNotAllowed => 0x002D,
        }
    }

    /// The error with the given code, if any.
    pub open spec fn spec_from_code(v: u16) -> Option<FPDError> {
        if v == 0x0000 {
            Some(FPDError::NotInitialized)
        } else if v == 0x0001 {
            Some(FPDError::AlreadyInitialized)
        } else if v == 0x0002 {
            Some(FPDError::NotConnected)
        } else if v == 0x0003 {
            Some(FPDError::Connected)
        } else if v == 0x0004 {
            Some(FPDError::InitializationFailure)
        } else if v == 0x0005 {
            Some(FPDError::OutOfMemory)
        } else if v == 0x0006 {
            Some(FPDError::RmcFailed)
        } else if v == 0x0007 {
            Some(FPDError::InvalidArgument)
        } else if v == 0x0008 {
            Some(FPDError::InvalidLocalAccountID)
        } else if v == 0x0009 {
            Some(FPDError::InvalidPrincipalID)
        } else if v == 0x000A {
            Some(FPDError::InvalidLocalFriendCode)
        } else if v == 0x000B {
            Some(FPDError::LocalAccountNotExists)
        } else if v == 0x000C {
            Some(FPDError::LocalAccountNotLoaded)
        } else if v == 0x000D {
            Some(FPDError::LocalAccountAlreadyLoaded)
        } else if v == 0x000E {
            Some(FPDError::FriendAlreadyExists)
        } else if v == 0x000F {
            Some(FPDError::FriendNotExists)
        } else if v == 0x0010 {
            Some(FPDError::FriendNumMax)
        } else if v == 0x0011 {
            Some(FPDError::NotFriend)
        } else if v == 0x0012 {
            Some(FPDError::FileIO)
        } else if v == 0x0013 {
            Some(FPDError::P2PInternetProhibited)
        } else if v == 0x0014 {
            Some(FPDError::Unknown)
        } else if v == 0x0015 {
            Some(FPDError::InvalidState)
        } else if v == 0x0017 {
            Some(FPDError::AddFriendProhibited)
        } else if v == 0x0019 {
            Some(FPDError::InvalidAccount)
        } else if v == 0x001A {
            Some(FPDError::BlacklistedByMe)
        } else if v == 0x001C {
            Some(FPDError::FriendAlreadyAdded)
        } else if v == 0x001D {
            Some(FPDError::MyFriendListLimitExceed)
        } else if v == 0x001E {
            Some(FPDError::RequestLimitExceed)
        } else if v == 0x001F {
            Some(FPDError::InvalidMessageID)
        } else if v == 0x0020 {
            Some(FPDError::MessageIsNotMine)
        } else if v == 0x0021 {
            Some(FPDError::MessageIsNotForMe)
        } else if v == 0x0022 {
            Some(FPDError::FriendRequestBlocked)
        } else if v == 0x0023 {
            Some(FPDError::NotInMyFriendList)
        } else if v == 0x0024 {
            Some(FPDError::FriendListedByMe)
        } else if v == 0x0025 {
            Some(FPDError::NotInMyBlacklist)
        } else if v == 0x0026 {
            Some(FPDError::IncompatibleAccount)
        } else if v == 0x0027 {
            Some(FPDError::BlockSettingChangeNotAllowed)
        } else if v == 0x0028 {
            Some(FPDError::SizeLimitExceeded)
        } else if v == 0x0029 {
            Some(FPDError::OperationNotAllowed)
        } else if v == 0x002A {
            Some(FPDError::NotNetworkAccount)
        } else if v == 0x002B {
            Some(FPDError::NotificationNotFound)
        } else if v == 0x002C {
            Some(FPDError::PreferenceNotInitialized)
        } else if v == 0x002D {
            Some(FPDError::FriendRequestNotAllowed)
        } else {
            None
        }
    }

    pub fn to_code(self) -> (r: u16)
        ensures
            r == self.spec_code(),
    {
        match self {
            FPDError::NotInitialized => 0x0000,
            FPDError::AlreadyInitialized => 0x0001,
            FPDError::NotConnected => 0x0002,
            FPDError::Connected => 0x0003,
            FPDError::InitializationFailure => 0x0004,
            FPDError::OutOfMemory => 0x0005,
            FPDError::RmcFailed => 0x0006,
            FPDError::InvalidArgument => 0x0007,
            FPDError::InvalidLocalAccountID => 0x0008,
            FPDError::InvalidPrincipalID => 0x0009,
            FPDError::InvalidLocalFriendCode => 0x000A,
            FPDError::LocalAccountNotExists => 0x000B,
            FPDError::LocalAccountNotLoaded => 0x000C,
            FPDError::LocalAccountAlreadyLoaded => 0x000D,
            FPDError::FriendAlreadyExists => 0x000E,
            FPDError::FriendNotExists => 0x000F,
            FPDError::FriendNumMax => 0x0010,
            FPDError::NotFriend => 0x0011,
            FPDError::FileIO => 0x0012,
            FPDError::P2PInternetProhibited => 0x0013,
            FPDError::Unknown => 0x0014,
            FPDError::InvalidState => 0x0015,
            FPDError::AddFriendProhibited => 0x0017,
            FPDError::InvalidAccount => 0x0019,
            FPDError::BlacklistedByMe => 0x001A,
            FPDError::FriendAlreadyAdded => 0x001C,
            FPDError::MyFriendListLimitExceed => 0x001D,
            FPDError::RequestLimitExceed => 0x001E,
            FPDError::InvalidMessageID => 0x001F,
            FPDError::MessageIsNotMine => 0x0020,
            FPDError::MessageIsNotForMe => 0x0021,
            FPDError::FriendRequestBlocked => 0x0022,
            FPDError::NotInMyFriendList => 0x0023,
            FPDError::FriendListedByMe => 0x0024,
            FPDError::NotInMyBlacklist => 0x0025,
            FPDError::IncompatibleAccount => 0x0026,
            FPDError::BlockSettingChangeNotAllowed => 0x0027,
            FPDError::SizeLimitExceeded => 0x0028,
            FPDError::OperationNotAllowed => 0x0029,
            FPDError::NotNetworkAccount => 0x002A,
            FPDError::NotificationNotFound => 0x002B,
            FPDError::PreferenceNotInitialized => 0x002C,
            FPDError::FriendRequestNotAllowed => 0x002D,
        }
    }

    /// The error with the given code, or `None`.
    pub fn try_from_code(v: u16) -> (r: Option<FPDError>)
        ensures
            r == FPDError::spec_from_code(v),
    {
        match v {
            0x0000 => Some(FPDError::NotInitialized),
            0x0001 => Some(FPDError::AlreadyInitialized),
            0x0002 => Some(FPDError::NotConnected),
            0x0003 => Some(FPDError::Connected),
            0x0004 => Some(FPDError::InitializationFailure),
            0x0005 => Some(FPDError::OutOfMemory),
            0x0006 => Some(FPDError::RmcFailed),
            0x0007 => Some(FPDError::InvalidArgument),
            0x0008 => Some(FPDError::InvalidLocalAccountID),
            0x0009 => Some(FPDError::InvalidPrincipalID),
            0x000A => Some(FPDError::InvalidLocalFriendCode),
            0x000B => Some(FPDError::LocalAccountNotExists),
            0x000C => Some(FPDError::LocalAccountNotLoaded),
            0x000D => Some(FPDError::LocalAccountAlreadyLoaded),
            0x000E => Some(FPDError::FriendAlreadyExists),
            0x000F => Some(FPDError::FriendNotExists),
            0x0010 => Some(FPDError::FriendNumMax),
            0x0011 => Some(FPDError::NotFriend),
            0x0012 => Some(FPDError::FileIO),
            0x0013 => Some(FPDError::P2PInternetProhibited),
            0x0014 => Some(FPDError::Unknown),
            0x0015 => Some(FPDError::InvalidState),
            0x0017 => Some(FPDError::AddFriendProhibited),
            0x0019 => Some(FPDError::InvalidAccount),
            0x001A => Some(FPDError::BlacklistedByMe),
            0x001C => Some(FPDError::FriendAlreadyAdded),
            0x001D => Some(FPDError::MyFriendListLimitExceed),
            0x001E => Some(FPDError::RequestLimitExceed),
            0x001F => Some(FPDError::InvalidMessageID),
            0x0020 => Some(FPDError::MessageIsNotMine),
            0x0021 => Some(FPDError::MessageIsNotForMe),
            0x0022 => Some(FPDError::FriendRequestBlocked),
            0x0023 => Some(FPDError::NotInMyFriendList),
            0x0024 => Some(FPDError::FriendListedByMe),
            0x0025 => Some(FPDError::NotInMyBlacklist),
            0x0026 => Some(FPDError::IncompatibleAccount),
            0x0027 => Some(FPDError::BlockSettingChangeNotAllowed),
            0x0028 => Some(FPDError::SizeLimitExceeded),
            0x0029 => Some(FPDError::OperationNotAllowed),
            0x002A => Some(FPDError::NotNetworkAccount),
            0x002B => Some(FPDError::NotificationNotFound),
            0x002C => Some(FPDError::PreferenceNotInitialized),
            0x002D => Some(FPDError::FriendRequestNotAllowed),
            _ => None,
        }
    }
}

#[derive(Debug, Clone, Copy, PartialEq, Eq, Structural)]
pub enum RankingError {
    NotInitialized,
    InvalidArgument,
    RegistrationError,
    NotFound,
    InvalidScore,
    InvalidDataSize,
    PermissionDenied,
    Unknown,
    NotImplemented,
}

impl RankingError {
    /// The code of the error within its category.
    pub open spec fn spec_code(self) -> u16 {
        match self {
            RankingError::NotInitialized => 0x0001,
            RankingError::InvalidArgument => 0x0002,
            RankingError::RegistrationError => 0x0003,
            RankingError::NotFound => 0x0005,
            RankingError::InvalidScore => 0x0006,
            RankingError::InvalidDataSize => 0x0007,
            RankingError::PermissionDenied => 0x0009,
            RankingError::Unknown => 0x000A,
            RankingError::NotImplemented => 0x000B,
        }
    }

    /// The error with the given code, if any.
    pub open spec fn spec_from_code(v: u16) -> Option<RankingError> {
        if v == 0x0001 {
            Some(RankingError::NotInitialized)
        } else if v == 0x0002 {
            Some(RankingError::InvalidArgument)
        } else if v == 0x0003 {
            Some(RankingError::RegistrationError)
        } else if v == 0x0005 {
            Some(RankingError::NotFound)
        } else if v == 0x0006 {
            Some(RankingError::InvalidScore)
        } else if v == 0x0007 {
            Some(RankingError::InvalidDataSize)
        } else if v == 0x0009 {
            Some(RankingError::PermissionDenied)
        } else if v == 0x000A {
            Some(RankingError::Unknown)
        } else if v == 0x000B {
            Some(RankingError::NotImplemented)
        } else {
            None
        }
    }

    pub fn to_code(self) -> (r: u16)
        ensures
            r == self.spec_code(),
    {
        match self {
            RankingError::NotInitialized => 0x0001,
            RankingError::InvalidArgument => 0x0002,
            RankingError::RegistrationError => 0x0003,
            RankingError::NotFound => 0x0005,
            RankingError::InvalidScore => 0x0006,
            RankingError::InvalidDataSize => 0x0007,
            RankingError::PermissionDenied => 0x0009,
            RankingError::Unknown => 0x000A,
            RankingError::NotImplemented => 0x000B,
        }
    }

    /// The error with the given code, or `None`.
    pub fn try_from_code(v: u16) -> (r: Option<RankingError>)
        ensures
            r == RankingError::spec_from_code(v),
    {
        match v {
            0x0001 => Some(RankingError::NotInitialized),
            0x0002 => Some(RankingError::InvalidArgument),
            0x0003 => Some(RankingError::RegistrationError),
            0x0005 => Some(RankingError::NotFound),
            0x0006 => Some(RankingError::InvalidScore),
            0x0007 => Some(RankingError::InvalidDataSize),
            0x0009 => Some(RankingError::PermissionDenied),
            0x000A => Some(RankingError::Unknown),
            0x000B => Some(RankingError::NotImplemented),
            _ => None,
        }
    }
}

#[derive(Debug, Clone, Copy, PartialEq, Eq, Structural)]
pub enum AuthenticationError {
    NASAuthenticateError,
    TokenParseError,
    HttpConnectionError,
    HttpDNSError,
    HttpGetProxySetting,
    TokenExpired,
    ValidationFailed,
    InvalidParam,
    PrincipalIdUnmatched,
    MoveCountUnmatch,
    UnderMaintenance,
    UnsupportedVersion,
    ServerVersionIsOld,
    Unknown,
    ClientVersionIsOld,
    AccountLibraryError,
    ServiceNoLongerAvailable,
    UnknownApplication,
    ApplicationVersionIsOld,
    OutOfService,
    NetworkServiceLicenseRequired,
    NetworkServiceLicenseSystemError,
    NetworkServiceLicenseError3,
    NetworkServiceLicenseError4,
}

impl AuthenticationError {
    /// The code of the error within its category.
    pub open spec fn spec_code(self) -> u16 {
        match self {
            AuthenticationError::NASAuthenticateError => 0x0001,
            AuthenticationError::TokenParseError => 0x0002,
            AuthenticationError::HttpConnectionError => 0x0003,
            AuthenticationError::HttpDNSError => 0x0004,
            AuthenticationError::HttpGetProxySetting => 0x0005,
            AuthenticationError::TokenExpired => 0x0006,
            AuthenticationError::ValidationFailed => 0x0007,
            AuthenticationError::InvalidParam => 0x0008,
            AuthenticationError::PrincipalIdUnmatched => 0x0009,
            AuthenticationError::MoveCountUnmatch => 0x000A,
            AuthenticationError::UnderMaintenance => 0x000B,
            AuthenticationError::UnsupportedVersion => 0x000C,
            AuthenticationError::ServerVersionIsOld => 0x000D,
            AuthenticationError::Unknown => 0x000E,
            AuthenticationError::ClientVersionIsOld => 0x000F,
            AuthenticationError::AccountLibraryError => 0x0010,
            AuthenticationError::ServiceNoLongerAvailable => 0x0011,
            AuthenticationError::UnknownApplication => 0x0012,
            AuthenticationError::ApplicationVersionIsOld => 0x0013,
            AuthenticationError::OutOfService => 0x0014,
            AuthenticationError::NetworkServiceLicenseRequired => 0x0015,
            AuthenticationError::NetworkServiceLicenseSystemError => 0x0016,
            AuthenticationError::NetworkServiceLicenseError3 => 0x0017,
            AuthenticationError::NetworkServiceLicenseError4 => 0x0018,
        }
    }

    /// The error with the given code, if any.
    pub open spec fn spec_from_code(v: u16) -> Option<AuthenticationError> {
        if v == 0x0001 {
            Some(AuthenticationError::NASAuthenticateError)
        } else if v == 0x0002 {
            Some(AuthenticationError::TokenParseError)
        } else if v == 0x0003 {
            Some(AuthenticationError::HttpConnectionError)
        } else if v == 0x0004 {
            Some(AuthenticationError::HttpDNSError)
        } else if v == 0x0005 {
            Some(AuthenticationError::HttpGetProxySetting)
        } else if v == 0x0006 {
            Some(AuthenticationError::TokenExpired)
        } else if v == 0x0007 {
            Some(AuthenticationError::ValidationFailed)
        } else if v == 0x0008 {
            Some(AuthenticationError::InvalidParam)
        } else if v == 0x0009 {
            Some(AuthenticationError::PrincipalIdUnmatched)
        } else if v == 0x000A {
            Some(AuthenticationError::MoveCountUnmatch)
        } else if v == 0x000B {
            Some(AuthenticationError::UnderMaintenance)
        } else if v == 0x000C {
            Some(AuthenticationError::UnsupportedVersion)
        } else if v == 0x000D {
            Some(AuthenticationError::ServerVersionIsOld)
        } else if v == 0x000E {
            Some(AuthenticationError::Unknown)
        } else if v == 0x000F {
            Some(AuthenticationError::ClientVersionIsOld)
        } else if v == 0x0010 {
            Some(AuthenticationError::AccountLibraryError)
        } else if v == 0x0011 {
            Some(AuthenticationError::ServiceNoLongerAvailable)
        } else if v == 0x0012 {
            Some(AuthenticationError::UnknownApplication)
        } else if v == 0x0013 {
            Some(AuthenticationError::ApplicationVersionIsOld)
        } else if v == 0x0014 {
            Some(AuthenticationError::OutOfService)
        } else if v == 0x0015 {
            Some(AuthenticationError::NetworkServiceLicenseRequired)
        } else if v == 0x0016 {
            Some(AuthenticationError::NetworkServiceLicenseSystemError)
        } else if v == 0x0017 {
            Some(AuthenticationError::NetworkServiceLicenseError3)
        } else if v == 0x0018 {
            Some(AuthenticationError::NetworkServiceLicenseError4)
        } else {
            None
        }
    }

    pub fn to_code(self) -> (r: u16)
        ensures
            r == self.spec_code(),
    {
        match self {
            AuthenticationError::NASAuthenticateError => 0x0001,
            AuthenticationError::TokenParseError => 0x0002,
            AuthenticationError::HttpConnectionError => 0x0003,
            AuthenticationError::HttpDNSError => 0x0004,
            AuthenticationError::HttpGetProxySetting => 0x0005,
            AuthenticationError::TokenExpired => 0x0006,
            AuthenticationError::ValidationFailed => 0x0007,
            AuthenticationError::InvalidParam => 0x0008,
            AuthenticationError::PrincipalIdUnmatched => 0x0009,
            AuthenticationError::MoveCountUnmatch => 0x000A,
            AuthenticationError::UnderMaintenance => 0x000B,
            AuthenticationError::UnsupportedVersion => 0x000C,
            AuthenticationError::ServerVersionIsOld => 0x000D,
            AuthenticationError::Unknown => 0x000E,
            AuthenticationError::ClientVersionIsOld => 0x000F,
            AuthenticationError::AccountLibraryError => 0x0010,
            AuthenticationError::ServiceNoLongerAvailable => 0x0011,
            AuthenticationError::UnknownApplication => 0x0012,
            AuthenticationError::ApplicationVersionIsOld => 0x0013,
            AuthenticationError::OutOfService => 0x0014,
            AuthenticationError::NetworkServiceLicenseRequired => 0x0015,
            AuthenticationError::NetworkServiceLicenseSystemError => 0x0016,
            AuthenticationError::NetworkServiceLicenseError3 => 0x0017,
            AuthenticationError::NetworkServiceLicenseError4 => 0x0018,
        }
    }

    /// The error with the given code, or `None`.
    pub fn try_from_code(v: u16) -> (r: Option<AuthenticationError>)
        ensures
            r == AuthenticationError::spec_from_code(v),
    {
        match v {
            0x0001 => Some(AuthenticationError::NASAuthenticateError),
            0x0002 => Some(AuthenticationError::TokenParseError),
            0x0003 => Some(AuthenticationError::HttpConnectionError),
            0x0004 => Some(AuthenticationError::HttpDNSError),
            0x0005 => Some(AuthenticationError::HttpGetProxySetting),
            0x0006 => Some(AuthenticationError::TokenExpired),
            0x0007 => Some(AuthenticationError::ValidationFailed),
            0x0008 => Some(AuthenticationError::InvalidParam),
            0x0009 => Some(AuthenticationError::PrincipalIdUnmatched),
            0x000A => Some(AuthenticationError::MoveCountUnmatch),
            0x000B => Some(AuthenticationError::UnderMaintenance),
            0x000C => Some(AuthenticationError::UnsupportedVersion),
            0x000D => Some(AuthenticationError::ServerVersionIsOld),
            0x000E => Some(AuthenticationError::Unknown),
            0x000F => Some(AuthenticationError::ClientVersionIsOld),
            0x0010 => Some(AuthenticationError::AccountLibraryError),
            0x0011 => Some(AuthenticationError::ServiceNoLongerAvailable),
            0x0012 => Some(AuthenticationError::UnknownApplication),
            0x0013 => Some(AuthenticationError::ApplicationVersionIsOld),
            0x0014 => Some(AuthenticationError::OutOfService),
            0x0015 => Some(AuthenticationError::NetworkServiceLicenseRequired),
            0x0016 => Some(AuthenticationError::NetworkServiceLicenseSystemError),
            0x0017 => Some(AuthenticationError::NetworkServiceLicenseError3),
            0x0018 => Some(AuthenticationError::NetworkServiceLicenseError4),
            _ => None,
        }
    }
}

#[derive(Debug, Clone, Copy, PartialEq, Eq, Structural)]
pub enum DataStoreError {
    Unknown,
    InvalidArgument,
    PermissionDenied,
    NotFound,
    AlreadyLocked,
    UnderReviewing,
    Expired,
    InvalidCheckToken,
    SystemFileError,
    OverCapacity,
    OperationNotAllowed,
    InvalidPassword,
    ValueNotEqual,
}

impl DataStoreError {
    /// The code of the error within its category.
    pub open spec fn spec_code(self) -> u16 {
        match self {
            DataStoreError::Unknown => 0x0001,
            DataStoreError::InvalidArgument => 0x0002,
            DataStoreError::PermissionDenied => 0x0003,
            DataStoreError::NotFound => 0x0004,
            DataStoreError::AlreadyLocked => 0x0005,
            DataStoreError::UnderReviewing => 0x0006,
            DataStoreError::Expired => 0x0007,
            DataStoreError::InvalidCheckToken => 0x0008,
            DataStoreError::SystemFileError => 0x0009,
            DataStoreError::OverCapacity => 0x000A,
            DataStoreError::OperationNotAllowed => 0x000B,
            DataStoreError::InvalidPassword => 0x000C,
            DataStoreError::ValueNotEqual => 0x000D,
        }
    }

    /// The error with the given code, if any.
    pub open spec fn spec_from_code(v: u16) -> Option<DataStoreError> {
        if v == 0x0001 {
            Some(DataStoreError::Unknown)
        } else if v == 0x0002 {
            Some(DataStoreError::InvalidArgument)
        } else if v == 0x0003 {
            Some(DataStoreError::PermissionDenied)
        } else if v == 0x0004 {
            Some(DataStoreError::NotFound)
        } else if v == 0x0005 {
            Some(DataStoreError::AlreadyLocked)
        } else if v == 0x0006 {
            Some(DataStoreError::UnderReviewing)
        } else if v == 0x0007 {
            Some(DataStoreError::Expired)
        } else if v == 0x0008 {
            Some(DataStoreError::InvalidCheckToken)
        } else if v == 0x0009 {
            Some(DataStoreError::SystemFileError)
        } else if v == 0x000A {
            Some(DataStoreError::OverCapacity)
        } else if v == 0x000B {
            Some(DataStoreError::OperationNotAllowed)
        } else if v == 0x000C {
            Some(DataStoreError::InvalidPassword)
        } else if v == 0x000D {
            Some(DataStoreError::ValueNotEqual)
        } else {
            None
        }
    }

    pub fn to_code(self) -> (r: u16)
        ensures
            r == self.spec_code(),
    {
        match self {
            DataStoreError::Unknown => 0x0001,
            DataStoreError::InvalidArgument => 0x0002,
            DataStoreError::PermissionDenied => 0x0003,
            DataStoreError::NotFound => 0x0004,
            DataStoreError::AlreadyLocked => 0x0005,
            DataStoreError::UnderReviewing => 0x0006,
            DataStoreError::Expired => 0x0007,
            DataStoreError::InvalidCheckToken => 0x0008,
            DataStoreError::SystemFileError => 0x0009,
            DataStoreError::OverCapacity => 0x000A,
            DataStoreError::OperationNotAllowed => 0x000B,
            DataStoreError::InvalidPassword => 0x000C,
            DataStoreError::ValueNotEqual => 0x000D,
        }
    }

    /// The error with the given code, or `None`.
    pub fn try_from_code(v: u16) -> (r: Option<DataStoreError>)
        ensures
            r == DataStoreError::spec_from_code(v),
    {
        match v {
            0x0001 => Some(DataStoreError::Unknown),
            0x0002 => Some(DataStoreError::InvalidArgument),
            0x0003 => Some(DataStoreError::PermissionDenied),
            0x0004 => Some(DataStoreError::NotFound),
            0x0005 => Some(DataStoreError::AlreadyLocked),
            0x0006 => Some(DataStoreError::UnderReviewing),
            0x0007 => Some(DataStoreError::Expired),
            0x0008 => Some(DataStoreError::InvalidCheckToken),
            0x0009 => Some(DataStoreError::SystemFileError),
            0x000A => Some(DataStoreError::OverCapacity),
            0x000B => Some(DataStoreError::OperationNotAllowed),
            0x000C => Some(DataStoreError::InvalidPassword),
            0x000D => Some(DataStoreError::ValueNotEqual),
            _ => None,
        }
    }
}

#[derive(Debug, Clone, Copy, PartialEq, Eq, Structural)]
pub enum ServiceItemError {
    Unknown,
    InvalidArgument,
    EShopUnknownHttpError,
    EShopResponseParseError,
    NotOwned,
    InvalidLimitationType,
    ConsumptionRightShortage,
}

impl ServiceItemError {
    /// The code of the error within its category.
    pub open spec fn spec_code(self) -> u16 {
        match self {
            ServiceItemError::Unknown => 0x0001,
            ServiceItemError::InvalidArgument => 0x0002,
            ServiceItemError::EShopUnknownHttpError => 0x0003,
            ServiceItemError::EShopResponseParseError => 0x0004,
            ServiceItemError::NotOwned => 0x0005,
            ServiceItemError::InvalidLimitationType => 0x0006,
            ServiceItemError::ConsumptionRightShortage => 0x0007,
        }
    }

    /// The error with the given code, if any.
    pub open spec fn spec_from_code(v: u16) -> Option<ServiceItemError> {
        if v == 0x0001 {
            Some(ServiceItemError::Unknown)
        } else if v == 0x0002 {
            Some(ServiceItemError::InvalidArgument)
        } else if v == 0x0003 {
            Some(ServiceItemError::EShopUnknownHttpError)
        } else if v == 0x0004 {
            Some(ServiceItemError::EShopResponseParseError)
        } else if v == 0x0005 {
            Some(ServiceItemError::NotOwned)
        } else if v == 0x0006 {
            Some(ServiceItemError::InvalidLimitationType)
        } else if v == 0x0007 {
            Some(ServiceItemError::ConsumptionRightShortage)
        } else {
            None
        }
    }

    pub fn to_code(self) -> (r: u16)
        ensures
            r == self.spec_code(),
    {
        match self {
            ServiceItemError::Unknown => 0x0001,
            ServiceItemError::InvalidArgument => 0x0002,
            ServiceItemError::EShopUnknownHttpError => 0x0003,
            ServiceItemError::EShopResponseParseError => 0x0004,
            ServiceItemError::NotOwned => 0x0005,
            ServiceItemError::InvalidLimitationType => 0x0006,
            ServiceItemError::ConsumptionRightShortage => 0x0007,
        }
    }

    /// The error with the given code, or `None`.
    pub fn try_from_code(v: u16) -> (r: Option<ServiceItemError>)
        ensures
            r == ServiceItemError::spec_from_code(v),
    {
        match v {
            0x0001 => Some(ServiceItemError::Unknown),
            0x0002 => Some(ServiceItemError::InvalidArgument),
            0x0003 => Some(ServiceItemError::EShopUnknownHttpError),
            0x0004 => Some(ServiceItemError::EShopResponseParseError),
            0x0005 => Some(ServiceItemError::NotOwned),
            0x0006 => Some(ServiceItemError::InvalidLimitationType),
            0x0007 => Some(ServiceItemError::ConsumptionRightShortage),
            _ => None,
        }
    }
}

#[derive(Debug, Clone, Copy, PartialEq, Eq, Structural)]
pub enum MatchmakeRefereeError {
    Unknown,
    InvalidArgument,
    AlreadyExists,
    NotParticipatedGathering,
    NotParticipatedRound,
    StatsNotFound,
    RoundNotFound,
    RoundArbitrated,
    RoundNotArbitrated,
}

impl MatchmakeRefereeError {
    /// The code of the error within its category.
    pub open spec fn spec_code(self) -> u16 {
        match self {
            MatchmakeRefereeError::Unknown => 0x0001,
            MatchmakeRefereeError::InvalidArgument => 0x0002,
            MatchmakeRefereeError::AlreadyExists => 0x0003,
            MatchmakeRefereeError::NotParticipatedGathering => 0x0004,
            MatchmakeRefereeError::NotParticipatedRound => 0x0005,
            MatchmakeRefereeError::StatsNotFound => 0x0006,
            MatchmakeRefereeError::RoundNotFound => 0x0007,
            MatchmakeRefereeError::RoundArbitrated => 0x0008,
            MatchmakeRefereeError::RoundNotArbitrated => 0x0009,
        }
    }

    /// The error with the given code, if any.
    pub open spec fn spec_from_code(v: u16) -> Option<MatchmakeRefereeError> {
        if v == 0x0001 {
            Some(MatchmakeRefereeError::Unknown)
        } else if v == 0x0002 {
            Some(MatchmakeRefereeError::InvalidArgument)
        } else if v == 0x0003 {
            Some(MatchmakeRefereeError::AlreadyExists)
        } else if v == 0x0004 {
            Some(MatchmakeRefereeError::NotParticipatedGathering)
        } else if v == 0x0005 {
            Some(MatchmakeRefereeError::NotParticipatedRound)
        } else if v == 0x0006 {
            Some(MatchmakeRefereeError::StatsNotFound)
        } else if v == 0x0007 {
            Some(MatchmakeRefereeError::RoundNotFound)
        } else if v == 0x0008 {
            Some(MatchmakeRefereeError::RoundArbitrated)
        } else if v == 0x0009 {
            Some(MatchmakeRefereeError::RoundNotArbitrated)
        } else {
            None
        }
    }

    pub fn to_code(self) -> (r: u16)
        ensures
            r == self.spec_code(),
    {
        match self {
            MatchmakeRefereeError::Unknown => 0x0001,
            MatchmakeRefereeError::InvalidArgument => 0x0002,
            MatchmakeRefereeError::AlreadyExists => 0x0003,
            MatchmakeRefereeError::NotParticipatedGathering => 0x0004,
            MatchmakeRefereeError::NotParticipatedRound => 0x0005,
            MatchmakeRefereeError::StatsNotFound => 0x0006,
            MatchmakeRefereeError::RoundNotFound => 0x0007,
            MatchmakeRefereeError::RoundArbitrated => 0x0008,
            MatchmakeRefereeError::RoundNotArbitrated => 0x0009,
        }
    }

    /// The error with the given code, or `None`.
    pub fn try_from_code(v: u16) -> (r: Option<MatchmakeRefereeError>)
        ensures
            r == MatchmakeRefereeError::spec_from_code(v),
    {
        match v {
            0x0001 => Some(MatchmakeRefereeError::Unknown),
            0x0002 => Some(MatchmakeRefereeError::InvalidArgument),
            0x0003 => Some(MatchmakeRefereeError::AlreadyExists),
            0x0004 => Some(MatchmakeRefereeError::NotParticipatedGathering),
            0x0005 => Some(MatchmakeRefereeError::NotParticipatedRound),
            0x0006 => Some(MatchmakeRefereeError::StatsNotFound),
            0x0007 => Some(MatchmakeRefereeError::RoundNotFound),
            0x0008 => Some(MatchmakeRefereeError::RoundArbitrated),
            0x0009 => Some(MatchmakeRefereeError::RoundNotArbitrated),
            _ => None,
        }
    }
}

#[derive(Debug, Clone, Copy, PartialEq, Eq, Structural)]
pub enum SubscriberError {
    Unknown,
    InvalidArgument,
    OverLimit,
    PermissionDenied,
}

impl SubscriberError {
    /// The code of the error within its category.
    pub open spec fn spec_code(self) -> u16 {
        match self {
            SubscriberError::Unknown => 0x0001,
            SubscriberError::InvalidArgument => 0x0002,
            SubscriberError::OverLimit => 0x0003,
            SubscriberError::PermissionDenied => 0x0004,
        }
    }

    /// The error with the given code, if any.
    pub open spec fn spec_from_code(v: u16) -> Option<SubscriberError> {
        if v == 0x0001 {
            Some(SubscriberError::Unknown)
        } else if v == 0x0002 {
            Some(SubscriberError::InvalidArgument)
        } else if v == 0x0003 {
            Some(SubscriberError::OverLimit)
        } else if v == 0x0004 {
            Some(SubscriberError::PermissionDenied)
        } else {
            None
        }
    }

    pub fn to_code(self) -> (r: u16)
        ensures
            r == self.spec_code(),
    {
        match self {
            SubscriberError::Unknown => 0x0001,
            SubscriberError::InvalidArgument => 0x0002,
            SubscriberError::OverLimit => 0x0003,
            SubscriberError::PermissionDenied => 0x0004,
        }
    }

    /// The error with the given code, or `None`.
    pub fn try_from_code(v: u16) -> (r: Option<SubscriberError>)
        ensures
            r == SubscriberError::spec_from_code(v),
    {
        match v {
            0x0001 => Some(SubscriberError::Unknown),
            0x0002 => Some(SubscriberError::InvalidArgument),
            0x0003 => Some(SubscriberError::OverLimit),
            0x0004 => Some(SubscriberError::PermissionDenied),
            _ => None,
        }
    }
}

#[derive(Debug, Clone, Copy, PartialEq, Eq, Structural)]
pub enum Ranking2Error {
    Unknown,
    InvalidArgument,
    InvalidScore,
}

impl Ranking2Error {
    /// The code of the error within its category.
    pub open spec fn spec_code(self) -> u16 {
        match self {
            Ranking2Error::Unknown => 0x0001,
            Ranking2Error::InvalidArgument => 0x0002,
            Ranking2Error::InvalidScore => 0x0003,
        }
    }

    /// The error with the given code, if any.
    pub open spec fn spec_from_code(v: u16) -> Option<Ranking2Error> {
        if v == 0x0001 {
            Some(Ranking2Error::Unknown)
        } else if v == 0x0002 {
            Some(Ranking2Error::InvalidArgument)
        } else if v == 0x0003 {
            Some(Ranking2Error::InvalidScore)
        } else {
            None
        }
    }

    pub fn to_code(self) -> (r: u16)
        ensures
            r == self.spec_code(),
    {
        match self {
            Ranking2Error::Unknown => 0x0001,
            Ranking2Error::InvalidArgument => 0x0002,
            Ranking2Error::InvalidScore => 0x0003,
        }
    }

    /// The error with the given code, or `None`.
    pub fn try_from_code(v: u16) -> (r: Option<Ranking2Error>)
        ensures
            r == Ranking2Error::spec_from_code(v),
    {
        match v {
            0x0001 => Some(Ranking2Error::Unknown),
            0x0002 => Some(Ranking2Error::InvalidArgument),
            0x0003 => Some(Ranking2Error::InvalidScore),
            _ => None,
        }
    }
}

#[derive(Debug, Clone, Copy, PartialEq, Eq, Structural)]
pub enum SmartDeviceVoiceChatError {
    Unknown,
    InvalidArgument,
    InvalidResponse,
    InvalidAccessToken,
    Unauthorized,
    AccessError,
    UserNotFound,
    RoomNotFound,
    RoomNotActivated,
    ApplicationNotSupported,
    InternalServerError,
    ServiceUnavailable,
    UnexpectedError,
    UnderMaintenance,
    ServiceNoLongerAvailable,
    AccountTemporarilyDisabled,
    PermissionDenied,
    NetworkServiceLicenseRequired,
    AccountLibraryError,
    GameModeNotFound,
}

impl SmartDeviceVoiceChatError {
    /// The code of the error within its category.
    pub open spec fn spec_code(self) -> u16 {
        match self {
            SmartDeviceVoiceChatError::Unknown => 0x0001,
            SmartDeviceVoiceChatError::InvalidArgument => 0x0002,
            SmartDeviceVoiceChatError::InvalidResponse => 0x0003,
            SmartDeviceVoiceChatError::InvalidAccessToken => 0x0004,
            SmartDeviceVoiceChatError::Unauthorized => 0x0005,
            SmartDeviceVoiceChatError::AccessError => 0x0006,
            SmartDeviceVoiceChatError::UserNotFound => 0x0007,
            SmartDeviceVoiceChatError::RoomNotFound => 0x0008,
            SmartDeviceVoiceChatError::RoomNotActivated => 0x0009,
            SmartDeviceVoiceChatError::ApplicationNotSupported => 0x000A,
            SmartDeviceVoiceChatError::InternalServerError => 0x000B,
            SmartDeviceVoiceChatError::ServiceUnavailable => 0x000C,
            SmartDeviceVoiceChatError::UnexpectedError => 0x000D,
            SmartDeviceVoiceChatError::UnderMaintenance => 0x000E,
            SmartDeviceVoiceChatError::ServiceNoLongerAvailable => 0x000F,
            SmartDeviceVoiceChatError::AccountTemporarilyDisabled => 0x0010,
            SmartDeviceVoiceChatError::PermissionDenied => 0x0011,
            SmartDeviceVoiceChatError::NetworkServiceLicenseRequired => 0x0012,
            SmartDeviceVoiceChatError::AccountLibraryError => 0x0013,
            SmartDeviceVoiceChatError::GameModeNotFound => 0x0014,
        }
    }

    /// The error with the given code, if any.
    pub open spec fn spec_from_code(v: u16) -> Option<SmartDeviceVoiceChatError> {
        if v == 0x0001 {
            Some(SmartDeviceVoiceChatError::Unknown)
        } else if v == 0x0002 {
            Some(SmartDeviceVoiceChatError::InvalidArgument)
        } else if v == 0x0003 {
            Some(SmartDeviceVoiceChatError::InvalidResponse)
        } else if v == 0x0004 {
            Some(SmartDeviceVoiceChatError::InvalidAccessToken)
        } else if v == 0x0005 {
            Some(SmartDeviceVoiceChatError::Unauthorized)
        } else if v == 0x0006 {
            Some(SmartDeviceVoiceChatError::AccessError)
        } else if v == 0x0007 {
            Some(SmartDeviceVoiceChatError::UserNotFound)
        } else if v == 0x0008 {
            Some(SmartDeviceVoiceChatError::RoomNotFound)
        } else if v == 0x0009 {
            Some(SmartDeviceVoiceChatError::RoomNotActivated)
        } else if v == 0x000A {
            Some(SmartDeviceVoiceChatError::ApplicationNotSupported)
        } else if v == 0x000B {
            Some(SmartDeviceVoiceChatError::InternalServerError)
        } else if v == 0x000C {
            Some(SmartDeviceVoiceChatError::ServiceUnavailable)
        } else if v == 0x000D {
            Some(SmartDeviceVoiceChatError::UnexpectedError)
        } else if v == 0x000E {
            Some(SmartDeviceVoiceChatError::UnderMaintenance)
        } else if v == 0x000F {
            Some(SmartDeviceVoiceChatError::ServiceNoLongerAvailable)
        } else if v == 0x0010 {
            Some(SmartDeviceVoiceChatError::AccountTemporarilyDisabled)
        } else if v == 0x0011 {
            Some(SmartDeviceVoiceChatError::PermissionDenied)
        } else if v == 0x0012 {
            Some(SmartDeviceVoiceChatError::NetworkServiceLicenseRequired)
        } else if v == 0x0013 {
            Some(SmartDeviceVoiceChatError::AccountLibraryError)
        } else if v == 0x0014 {
            Some(SmartDeviceVoiceChatError::GameModeNotFound)
        } else {
            None
        }
    }

    pub fn to_code(self) -> (r: u16)
        ensures
            r == self.spec_code(),
    {
        match self {
            SmartDeviceVoiceChatError::Unknown => 0x0001,
            SmartDeviceVoiceChatError::InvalidArgument => 0x0002,
            SmartDeviceVoiceChatError::InvalidResponse => 0x0003,
            SmartDeviceVoiceChatError::InvalidAccessToken => 0x0004,
            SmartDeviceVoiceChatError::Unauthorized => 0x0005,
            SmartDeviceVoiceChatError::AccessError => 0x0006,
            SmartDeviceVoiceChatError::UserNotFound => 0x0007,
            SmartDeviceVoiceChatError::RoomNotFound => 0x0008,
            SmartDeviceVoiceChatError::RoomNotActivated => 0x0009,
            SmartDeviceVoiceChatError::ApplicationNotSupported => 0x000A,
            SmartDeviceVoiceChatError::InternalServerError => 0x000B,
            SmartDeviceVoiceChatError::ServiceUnavailable => 0x000C,
            SmartDeviceVoiceChatError::UnexpectedError => 0x000D,
            SmartDeviceVoiceChatError::UnderMaintenance => 0x000E,
            SmartDeviceVoiceChatError::ServiceNoLongerAvailable => 0x000F,
            SmartDeviceVoiceChatError::AccountTemporarilyDisabled => 0x0010,
            SmartDeviceVoiceChatError::PermissionDenied => 0x0011,
            SmartDeviceVoiceChatError::NetworkServiceLicenseRequired => 0x0012,
            SmartDeviceVoiceChatError::AccountLibraryError => 0x0013,
            SmartDeviceVoiceChatError::GameModeNotFound => 0x0014,
        }
    }

    /// The error with the given code, or `None`.
    pub fn try_from_code(v: u16) -> (r: Option<SmartDeviceVoiceChatError>)
        ensures
            r == SmartDeviceVoiceChatError::spec_from_code(v),
    {
        match v {
            0x0001 => Some(SmartDeviceVoiceChatError::Unknown),
            0x0002 => Some(SmartDeviceVoiceChatError::InvalidArgument),
            0x0003 => Some(SmartDeviceVoiceChatError::InvalidResponse),
            0x0004 => Some(SmartDeviceVoiceChatError::InvalidAccessToken),
            0x0005 => Some(SmartDeviceVoiceChatError::Unauthorized),
            0x0006 => Some(SmartDeviceVoiceChatError::AccessError),
            0x0007 => Some(SmartDeviceVoiceChatError::UserNotFound),
            0x0008 => Some(SmartDeviceVoiceChatError::RoomNotFound),
            0x0009 => Some(SmartDeviceVoiceChatError::RoomNotActivated),
            0x000A => Some(SmartDeviceVoiceChatError::ApplicationNotSupported),
            0x000B => Some(SmartDeviceVoiceChatError::InternalServerError),
            0x000C => Some(SmartDeviceVoiceChatError::ServiceUnavailable),
            0x000D => Some(SmartDeviceVoiceChatError::UnexpectedError),
            0x000E => Some(SmartDeviceVoiceChatError::UnderMaintenance),
            0x000F => Some(SmartDeviceVoiceChatError::ServiceNoLongerAvailable),
            0x0010 => Some(SmartDeviceVoiceChatError::AccountTemporarilyDisabled),
            0x0011 => Some(SmartDeviceVoiceChatError::PermissionDenied),
            0x0012 => Some(SmartDeviceVoiceChatError::NetworkServiceLicenseRequired),
            0x0013 => Some(SmartDeviceVoiceChatError::AccountLibraryError),
            0x0014 => Some(SmartDeviceVoiceChatError::GameModeNotFound),
            _ => None,
        }
    }
}

#[derive(Debug, Clone, Copy, PartialEq, Eq, Structural)]
pub enum ScreeningError {
    Unknown,
    InvalidArgument,
    NotFound,
}

impl ScreeningError {
    /// The code of the error within its category.
    pub open spec fn spec_code(self) -> u16 {
        match self {
            ScreeningError::Unknown => 0x0001,
            ScreeningError::InvalidArgument => 0x0002,
            ScreeningError::NotFound => 0x0003,
        }
    }

    /// The error with the given code, if any.
    pub open spec fn spec_from_code(v: u16) -> Option<ScreeningError> {
        if v == 0x0001 {
            Some(ScreeningError::Unknown)
        } else if v == 0x0002 {
            Some(ScreeningError::InvalidArgument)
        } else if v == 0x0003 {
            Some(ScreeningError::NotFound)
        } else {
            None
        }
    }

    pub fn to_code(self) -> (r: u16)
        ensures
            r == self.spec_code(),
    {
        match self {
            ScreeningError::Unknown => 0x0001,
            ScreeningError::InvalidArgument => 0x0002,
            ScreeningError::NotFound => 0x0003,
        }
    }

    /// The error with the given code, or `None`.
    pub fn try_from_code(v: u16) -> (r: Option<ScreeningError>)
        ensures
            r == ScreeningError::spec_from_code(v),
    {
        match v {
            0x0001 => Some(ScreeningError::Unknown),
            0x0002 => Some(ScreeningError::InvalidArgument),
            0x0003 => Some(ScreeningError::NotFound),
            _ => None,
        }
    }
}

#[derive(Debug, Clone, Copy, PartialEq, Eq, Structural)]
pub enum CustomError {
    Unknown,
}

impl CustomError {
    /// The code of the error within its category.
    pub open spec fn spec_code(self) -> u16 {
        match self {
            CustomError::Unknown => 0x0001,
        }
    }

    /// The error with the given code, if any.
    pub open spec fn spec_from_code(v: u16) -> Option<CustomError> {
        if v == 0x0001 {
            Some(CustomError::Unknown)
        } else {
            None
        }
    }

    pub fn to_code(self) -> (r: u16)
        ensures
            r == self.spec_code(),
    {
        match self {
            CustomError::Unknown => 0x0001,
        }
    }

    /// The error with the given code, or `None`.
    pub fn try_from_code(v: u16) -> (r: Option<CustomError>)
        ensures
            r == CustomError::spec_from_code(v),
    {
        match v {
            0x0001 => Some(CustomError::Unknown),
            _ => None,
        }
    }
}

#[derive(Debug, Clone, Copy, PartialEq, Eq, Structural)]
pub enum EssError {
    Unknown,
    GameSessionError,
    GameSessionMaintenance,
}

impl EssError {
    /// The code of the error within its category.
    pub open spec fn spec_code(self) -> u16 {
        match self {
            EssError::Unknown => 0x0001,
            EssError::GameSessionError => 0x0002,
            EssError::GameSessionMaintenance => 0x0003,
        }
    }

    /// The error with the given code, if any.
    pub open spec fn spec_from_code(v: u16) -> Option<EssError> {
        if v == 0x0001 {
            Some(EssError::Unknown)
        } else if v == 0x0002 {
            Some(EssError::GameSessionError)
        } else if v == 0x0003 {
            Some(EssError::GameSessionMaintenance)
        } else {
            None
        }
    }

    pub fn to_code(self) -> (r: u16)
        ensures
            r == self.spec_code(),
    {
        match self {
            EssError::Unknown => 0x0001,
            EssError::GameSessionError => 0x0002,
            EssError::GameSessionMaintenance => 0x0003,
        }
    }

    /// The error with the given code, or `None`.
    pub fn try_from_code(v: u16) -> (r: Option<EssError>)
        ensures
            r == EssError::spec_from_code(v),
    {
        match v {
            0x0001 => Some(EssError::Unknown),
            0x0002 => Some(EssError::GameSessionError),
            0x0003 => Some(EssError::GameSessionMaintenance),
            _ => None,
        }
    }
}

/// An RMC result error: a category and the error within it.
#[derive(Debug, Clone, Copy, PartialEq, Eq, Structural)]
pub enum Error {
    Core(CoreError),
    DDL(DDLError),
    RendezVous(RendezVousError),
    PythonCore(PythonCoreError),
    Transport(TransportError),
    DOCore(DOCoreError),
    FPD(FPDError),
    Ranking(RankingError),
    Authentication(AuthenticationError),
    DataStore(DataStoreError),
    ServiceItem(ServiceItemError),
    MatchmakeReferee(MatchmakeRefereeError),
    Subscriber(SubscriberError),
    Ranking2(Ranking2Error),
    SmartDeviceVoiceChat(SmartDeviceVoiceChatError),
    Screening(ScreeningError),
    Custom(CustomError),
    Ess(EssError),
}

/// The number of an error category.
pub open spec fn spec_category(e: Error) -> u32 {
    match e {
        Error::Core(_) => 0x01,
        Error::DDL(_) => 0x02,
        Error::RendezVous(_) => 0x03,
        Error::PythonCore(_) => 0x04,
        Error::Transport(_) => 0x05,
        Error::DOCore(_) => 0x06,
        Error::FPD(_) => 0x65,
        Error::Ranking(_) => 0x67,
        Error::Authentication(_) => 0x68,
        Error::DataStore(_) => 0x69,
        Error::ServiceItem(_) => 0x6C,
        Error::MatchmakeReferee(_) => 0x6F,
        Error::Subscriber(_) => 0x70,
        Error::Ranking2(_) => 0x71,
        Error::SmartDeviceVoiceChat(_) => 0x72,
        Error::Screening(_) => 0x73,
        Error::Custom(_) => 0x74,
        Error::Ess(_) => 0x75,
    }
}

/// The code of an error within its category.
pub open spec fn spec_inner_code(e: Error) -> u16 {
    match e {
        Error::Core(inner) => inner.spec_code(),
        Error::DDL(inner) => inner.spec_code(),
        Error::RendezVous(inner) => inner.spec_code(),
        Error::PythonCore(inner) => inner.spec_code(),
        Error::Transport(inner) => inner.spec_code(),
        Error::DOCore(inner) => inner.spec_code(),
        Error::FPD(inner) => inner.spec_code(),
        Error::Ranking(inner) => inner.spec_code(),
        Error::Authentication(inner) => inner.spec_code(),
        Error::DataStore(inner) => inner.spec_code(),
        Error::ServiceItem(inner) => inner.spec_code(),
        Error::MatchmakeReferee(inner) => inner.spec_code(),
        Error::Subscriber(inner) => inner.spec_code(),
        Error::Ranking2(inner) => inner.spec_code(),
        Error::SmartDeviceVoiceChat(inner) => inner.spec_code(),
        Error::Screening(inner) => inner.spec_code(),
        Error::Custom(inner) => inner.spec_code(),
        Error::Ess(inner) => inner.spec_code(),
    }
}

/// The wire code of an error: the top bit, the category in bits 16 to 30
/// and the error within the category in the low half.
pub open spec fn spec_error_code(e: Error) -> u32 {
    (0x8000_0000 + spec_category(e) * 0x1_0000 + spec_inner_code(e)) as u32
}

/// The error that a code within a category names, if any.
pub open spec fn spec_error_in(category: u32, inner: u16) -> Option<Error> {
    if category == 0x01 {
        match CoreError::spec_from_code(inner) {
            Some(x) => Some(Error::Core(x)),
            None => None,
        }
    } else if category == 0x02 {
        match DDLError::spec_from_code(inner) {
            Some(x) => Some(Error::DDL(x)),
            None => None,
        }
    } else if category == 0x03 {
        match RendezVousError::spec_from_code(inner) {
            Some(x) => Some(Error::RendezVous(x)),
            None => None,
        }
    } else if category == 0x04 {
        match PythonCoreError::spec_from_code(inner) {
            Some(x) => Some(Error::PythonCore(x)),
            None => None,
        }
    } else if category == 0x05 {
        match TransportError::spec_from_code(inner) {
            Some(x) => Some(Error::Transport(x)),
            None => None,
        }
    } else if category == 0x06 {
        match DOCoreError::spec_from_code(inner) {
            Some(x) => Some(Error::DOCore(x)),
            None => None,
        }
    } else if category == 0x65 {
        match FPDError::spec_from_code(inner) {
            Some(x) => Some(Error::FPD(x)),
            None => None,
        }
    } else if category == 0x67 {
        match RankingError::spec_from_code(inner) {
            Some(x) => Some(Error::Ranking(x)),
            None => None,
        }
    } else if category == 0x68 {
        match AuthenticationError::spec_from_code(inner) {
            Some(x) => Some(Error::Authentication(x)),
            None => None,
        }
    } else if category == 0x69 {
        match DataStoreError::spec_from_code(inner) {
            Some(x) => Some(Error::DataStore(x)),
            None => None,
        }
    } else if category == 0x6C {
        match ServiceItemError::spec_from_code(inner) {
            Some(x) => Some(Error::ServiceItem(x)),
            None => None,
        }
    } else if category == 0x6F {
        match MatchmakeRefereeError::spec_from_code(inner) {
            Some(x) => Some(Error::MatchmakeReferee(x)),
            None => None,
        }
    } else if category == 0x70 {
        match SubscriberError::spec_from_code(inner) {
            Some(x) => Some(Error::Subscriber(x)),
            None => None,
        }
    } else if category == 0x71 {
        match Ranking2Error::spec_from_code(inner) {
            Some(x) => Some(Error::Ranking2(x)),
            None => None,
        }
    } else if category == 0x72 {
        match SmartDeviceVoiceChatError::spec_from_code(inner) {
            Some(x) => Some(Error::SmartDeviceVoiceChat(x)),
            None => None,
        }
    } else if category == 0x73 {
        match ScreeningError::spec_from_code(inner) {
            Some(x) => Some(Error::Screening(x)),
            None => None,
        }
    } else if category == 0x74 {
        match CustomError::spec_from_code(inner) {
            Some(x) => Some(Error::Custom(x)),
            None => None,
        }
    } else if category == 0x75 {
        match EssError::spec_from_code(inner) {
            Some(x) => Some(Error::Ess(x)),
            None => None,
        }
    } else {
        None
    }
}

/// The error that a wire code names, or the code back.
pub open spec fn spec_error_from_code(value: u32) -> Result<Error, u32> {
    if value < 0x8000_0000 {
        Err(value)
    } else {
        let code = (value - 0x8000_0000) as u32;
        match spec_error_in(code / 0x1_0000, (code % 0x1_0000) as u16) {
            Some(e) => Ok(e),
            None => Err(value),
        }
    }
}

impl Error {
    /// The wire code of the error.
    pub fn to_code(self) -> (r: u32)
        ensures
            r == spec_error_code(self),
    {
        let (category, inner): (u32, u16) = match self {
            Error::Core(x) => (0x01, x.to_code()),
            Error::DDL(x) => (0x02, x.to_code()),
            Error::RendezVous(x) => (0x03, x.to_code()),
            Error::PythonCore(x) => (0x04, x.to_code()),
            Error::Transport(x) => (0x05, x.to_code()),
            Error::DOCore(x) => (0x06, x.to_code()),
            Error::FPD(x) => (0x65, x.to_code()),
            Error::Ranking(x) => (0x67, x.to_code()),
            Error::Authentication(x) => (0x68, x.to_code()),
            Error::DataStore(x) => (0x69, x.to_code()),
            Error::ServiceItem(x) => (0x6C, x.to_code()),
            Error::MatchmakeReferee(x) => (0x6F, x.to_code()),
            Error::Subscriber(x) => (0x70, x.to_code()),
            Error::Ranking2(x) => (0x71, x.to_code()),
            Error::SmartDeviceVoiceChat(x) => (0x72, x.to_code()),
            Error::Screening(x) => (0x73, x.to_code()),
            Error::Custom(x) => (0x74, x.to_code()),
            Error::Ess(x) => (0x75, x.to_code()),
        };
        0x8000_0000 + category * 0x1_0000 + inner as u32
    }

    /// The error that a wire code names, or the code back when it has no
    /// top bit or names no known error.
    pub fn try_from_code(value: u32) -> (r: Result<Error, u32>)
        ensures
            r == spec_error_from_code(value),
    {
        if value < 0x8000_0000 {
            return Err(value);
        }
        let code = value - 0x8000_0000;
        let category = code / 0x1_0000;
        let inner = (code % 0x1_0000) as u16;
        let found: Option<Error> = match category {
            0x01 => match CoreError::try_from_code(inner) {
                Some(x) => Some(Error::Core(x)),
                None => None,
            },
            0x02 => match DDLError::try_from_code(inner) {
                Some(x) => Some(Error::DDL(x)),
                None => None,
            },
            0x03 => match RendezVousError::try_from_code(inner) {
                Some(x) => Some(Error::RendezVous(x)),
                None => None,
            },
            0x04 => match PythonCoreError::try_from_code(inner) {
                Some(x) => Some(Error::PythonCore(x)),
                None => None,
            },
            0x05 => match TransportError::try_from_code(inner) {
                Some(x) => Some(Error::Transport(x)),
                None => None,
            },
            0x06 => match DOCoreError::try_from_code(inner) {
                Some(x) => Some(Error::DOCore(x)),
                None => None,
            },
            0x65 => match FPDError::try_from_code(inner) {
                Some(x) => Some(Error::FPD(x)),
                None => None,
            },
            0x67 => match RankingError::try_from_code(inner) {
                Some(x) => Some(Error::Ranking(x)),
                None => None,
            },
            0x68 => match AuthenticationError::try_from_code(inner) {
                Some(x) => Some(Error::Authentication(x)),
                None => None,
            },
            0x69 => match DataStoreError::try_from_code(inner) {
                Some(x) => Some(Error::DataStore(x)),
                None => None,
            },
            0x6C => match ServiceItemError::try_from_code(inner) {
                Some(x) => Some(Error::ServiceItem(x)),
                None => None,
            },
            0x6F => match MatchmakeRefereeError::try_from_code(inner) {
                Some(x) => Some(Error::MatchmakeReferee(x)),
                None => None,
            },
            0x70 => match SubscriberError::try_from_code(inner) {
                Some(x) => Some(Error::Subscriber(x)),
                None => None,
            },
            0x71 => match Ranking2Error::try_from_code(inner) {
                Some(x) => Some(Error::Ranking2(x)),
                None => None,
            },
            0x72 => match SmartDeviceVoiceChatError::try_from_code(inner) {
                Some(x) => Some(Error::SmartDeviceVoiceChat(x)),
                None => None,
            },
            0x73 => match ScreeningError::try_from_code(inner) {
                Some(x) => Some(Error::Screening(x)),
                None => None,
            },
            0x74 => match CustomError::try_from_code(inner) {
                Some(x) => Some(Error::Custom(x)),
                None => None,
            },
            0x75 => match EssError::try_from_code(inner) {
                Some(x) => Some(Error::Ess(x)),
                None => None,
            },
            _ => None,
        };
        match found {
            Some(e) => Ok(e),
            None => Err(value),
        }
    }
}

proof fn lemma_code_split(category: u32, inner: u16)
    requires
        category < 0x8000,
    ensures
        ((0x8000_0000 + category * 0x1_0000 + inner) - 0x8000_0000) / 0x1_0000 == category,
        ((0x8000_0000 + category * 0x1_0000 + inner) - 0x8000_0000) % 0x1_0000 == inner,
{
    vstd::arithmetic::div_mod::lemma_fundamental_div_mod_converse(
        category * 0x1_0000 + inner,
        0x1_0000,
        category as int,
        inner as int,
    );
}

/// Every error's wire code has the top bit set.
pub proof fn lemma_error_code_bound(e: Error)
    ensures
        spec_error_code(e) >= 0x8000_0000,
{
}

/// The wire code of every error names that error.
pub proof fn lemma_error_code_roundtrip(e: Error)
    ensures
        spec_error_from_code(spec_error_code(e)) == Ok::<Error, u32>(e),
{
    lemma_code_split(spec_category(e), spec_inner_code(e));
    match e {
        Error::Core(x) => lemma_core_error_roundtrip(x),
        Error::DDL(x) => lemma_ddl_error_roundtrip(x),
        Error::RendezVous(x) => lemma_rendez_vous_error_roundtrip(x),
        Error::PythonCore(x) => lemma_python_core_error_roundtrip(x),
        Error::Transport(x) => lemma_transport_error_roundtrip(x),
        Error::DOCore(x) => lemma_do_core_error_roundtrip(x),
        Error::FPD(x) => lemma_fpd_error_roundtrip(x),
        Error::Ranking(x) => lemma_ranking_error_roundtrip(x),
        Error::Authentication(x) => lemma_authentication_error_roundtrip(x),
        Error::DataStore(x) => lemma_data_store_error_roundtrip(x),
        Error::ServiceItem(x) => lemma_service_item_error_roundtrip(x),
        Error::MatchmakeReferee(x) => lemma_matchmake_referee_error_roundtrip(x),
        Error::Subscriber(x) => lemma_subscriber_error_roundtrip(x),
        Error::Ranking2(x) => lemma_ranking2_error_roundtrip(x),
        Error::SmartDeviceVoiceChat(x) => lemma_smart_device_voice_chat_error_roundtrip(x),
        Error::Screening(x) => lemma_screening_error_roundtrip(x),
        Error::Custom(x) => lemma_custom_error_roundtrip(x),
        Error::Ess(x) => lemma_ess_error_roundtrip(x),
    }
}

proof fn lemma_error_in(category: u32, inner: u16)
    ensures
        spec_error_in(category, inner) matches Some(e) ==> spec_category(e) == category && spec_inner_code(e) == inner,
{
    lemma_core_error_canonical(inner);
    lemma_ddl_error_canonical(inner);
    lemma_rendez_vous_error_canonical(inner);
    lemma_python_core_error_canonical(inner);
    lemma_transport_error_canonical(inner);
    lemma_do_core_error_canonical(inner);
    lemma_fpd_error_canonical(inner);
    lemma_ranking_error_canonical(inner);
    lemma_authentication_error_canonical(inner);
    lemma_data_store_error_canonical(inner);
    lemma_service_item_error_canonical(inner);
    lemma_matchmake_referee_error_canonical(inner);
    lemma_subscriber_error_canonical(inner);
    lemma_ranking2_error_canonical(inner);
    lemma_smart_device_voice_chat_error_canonical(inner);
    lemma_screening_error_canonical(inner);
    lemma_custom_error_canonical(inner);
    lemma_ess_error_canonical(inner);
}

/// A code that names an error is that error's wire code.
pub proof fn lemma_error_code_canonical(value: u32)
    ensures
        spec_error_from_code(value) matches Ok(e) ==> spec_error_code(e) == value,
{
    if value >= 0x8000_0000 {
        let code = (value - 0x8000_0000) as u32;
        let category = code / 0x1_0000;
        let inner = (code % 0x1_0000) as u16;
        lemma_error_in(category, inner);
        assert(code == category * 0x1_0000 + inner);
    }
}

proof fn lemma_core_error_roundtrip(e: CoreError)
    ensures
        CoreError::spec_from_code(e.spec_code()) == Some(e),
{
}

proof fn lemma_core_error_canonical(v: u16)
    ensures
        CoreError::spec_from_code(v) matches Some(e) ==> e.spec_code() == v,
{
}

proof fn lemma_ddl_error_roundtrip(e: DDLError)
    ensures
        DDLError::spec_from_code(e.spec_code()) == Some(e),
{
}

proof fn lemma_ddl_error_canonical(v: u16)
    ensures
        DDLError::spec_from_code(v) matches Some(e) ==> e.spec_code() == v,
{
}

proof fn lemma_rendez_vous_error_roundtrip(e: RendezVousError)
    ensures
        RendezVousError::spec_from_code(e.spec_code()) == Some(e),
{
}

proof fn lemma_rendez_vous_error_canonical(v: u16)
    ensures
        RendezVousError::spec_from_code(v) matches Some(e) ==> e.spec_code() == v,
{
}

proof fn lemma_python_core_error_roundtrip(e: PythonCoreError)
    ensures
        PythonCoreError::spec_from_code(e.spec_code()) == Some(e),
{
}

proof fn lemma_python_core_error_canonical(v: u16)
    ensures
        PythonCoreError::spec_from_code(v) matches Some(e) ==> e.spec_code() == v,
{
}

proof fn lemma_transport_error_roundtrip(e: TransportError)
    ensures
        TransportError::spec_from_code(e.spec_code()) == Some(e),
{
}

proof fn lemma_transport_error_canonical(v: u16)
    ensures
        TransportError::spec_from_code(v) matches Some(e) ==> e.spec_code() == v,
{
}

proof fn lemma_do_core_error_roundtrip(e: DOCoreError)
    ensures
        DOCoreError::spec_from_code(e.spec_code()) == Some(e),
{
}

proof fn lemma_do_core_error_canonical(v: u16)
    ensures
        DOCoreError::spec_from_code(v) matches Some(e) ==> e.spec_code() == v,
{
}

proof fn lemma_fpd_error_roundtrip(e: FPDError)
    ensures
        FPDError::spec_from_code(e.spec_code()) == Some(e),
{
}

proof fn lemma_fpd_error_canonical(v: u16)
    ensures
        FPDError::spec_from_code(v) matches Some(e) ==> e.spec_code() == v,
{
}

proof fn lemma_ranking_error_roundtrip(e: RankingError)
    ensures
        RankingError::spec_from_code(e.spec_code()) == Some(e),
{
}

proof fn lemma_ranking_error_canonical(v: u16)
    ensures
        RankingError::spec_from_code(v) matches Some(e) ==> e.spec_code() == v,
{
}

proof fn lemma_authentication_error_roundtrip(e: AuthenticationError)
    ensures
        AuthenticationError::spec_from_code(e.spec_code()) == Some(e),
{
}

proof fn lemma_authentication_error_canonical(v: u16)
    ensures
        AuthenticationError::spec_from_code(v) matches Some(e) ==> e.spec_code() == v,
{
}

proof fn lemma_data_store_error_roundtrip(e: DataStoreError)
    ensures
        DataStoreError::spec_from_code(e.spec_code()) == Some(e),
{
}

proof fn lemma_data_store_error_canonical(v: u16)
    ensures
        DataStoreError::spec_from_code(v) matches Some(e) ==> e.spec_code() == v,
{
}

proof fn lemma_service_item_error_roundtrip(e: ServiceItemError)
    ensures
        ServiceItemError::spec_from_code(e.spec_code()) == Some(e),
{
}

proof fn lemma_service_item_error_canonical(v: u16)
    ensures
        ServiceItemError::spec_from_code(v) matches Some(e) ==> e.spec_code() == v,
{
}

proof fn lemma_matchmake_referee_error_roundtrip(e: MatchmakeRefereeError)
    ensures
        MatchmakeRefereeError::spec_from_code(e.spec_code()) == Some(e),
{
}

proof fn lemma_matchmake_referee_error_canonical(v: u16)
    ensures
        MatchmakeRefereeError::spec_from_code(v) matches Some(e) ==> e.spec_code() == v,
{
}

proof fn lemma_subscriber_error_roundtrip(e: SubscriberError)
    ensures
        SubscriberError::spec_from_code(e.spec_code()) == Some(e),
{
}

proof fn lemma_subscriber_error_canonical(v: u16)
    ensures
        SubscriberError::spec_from_code(v) matches Some(e) ==> e.spec_code() == v,
{
}

proof fn lemma_ranking2_error_roundtrip(e: Ranking2Error)
    ensures
        Ranking2Error::spec_from_code(e.spec_code()) == Some(e),
{
}

proof fn lemma_ranking2_error_canonical(v: u16)
    ensures
        Ranking2Error::spec_from_code(v) matches Some(e) ==> e.spec_code() == v,
{
}

proof fn lemma_smart_device_voice_chat_error_roundtrip(e: SmartDeviceVoiceChatError)
    ensures
        SmartDeviceVoiceChatError::spec_from_code(e.spec_code()) == Some(e),
{
}

proof fn lemma_smart_device_voice_chat_error_canonical(v: u16)
    ensures
        SmartDeviceVoiceChatError::spec_from_code(v) matches Some(e) ==> e.spec_code() == v,
{
}

proof fn lemma_screening_error_roundtrip(e: ScreeningError)
    ensures
        ScreeningError::spec_from_code(e.spec_code()) == Some(e),
{
}

proof fn lemma_screening_error_canonical(v: u16)
    ensures
        ScreeningError::spec_from_code(v) matches Some(e) ==> e.spec_code() == v,
{
}

proof fn lemma_custom_error_roundtrip(e: CustomError)
    ensures
        CustomError::spec_from_code(e.spec_code()) == Some(e),
{
}

proof fn lemma_custom_error_canonical(v: u16)
    ensures
        CustomError::spec_from_code(v) matches Some(e) ==> e.spec_code() == v,
{
}

proof fn lemma_ess_error_roundtrip(e: EssError)
    ensures
        EssError::spec_from_code(e.spec_code()) == Some(e),
{
}

proof fn lemma_ess_error_canonical(v: u16)
    ensures
        EssError::spec_from_code(v) matches Some(e) ==> e.spec_code() == v,
{
}

/// The wire codes of the Core errors, as the protocol numbers them:
/// category 0x01, each error under its own number; each code reads back
/// as its error.
pub proof fn lemma_core_numbering()
    ensures
        spec_error_code(Error::Core(CoreError::Unknown)) == 0x80010001,
        spec_error_from_code(0x80010001) == Ok::<Error, u32>(Error::Core(CoreError::Unknown)),
        spec_error_code(Error::Core(CoreError::NotImplemented)) == 0x80010002,
        spec_error_from_code(0x80010002) == Ok::<Error, u32>(Error::Core(CoreError::NotImplemented)),
        spec_error_code(Error::Core(CoreError::InvalidPointer)) == 0x80010003,
        spec_error_from_code(0x80010003) == Ok::<Error, u32>(Error::Core(CoreError::InvalidPointer)),
        spec_error_code(Error::Core(CoreError::OperationAborted)) == 0x80010004,
        spec_error_from_code(0x80010004) == Ok::<Error, u32>(Error::Core(CoreError::OperationAborted)),
        spec_error_code(Error::Core(CoreError::Exception)) == 0x80010005,
        spec_error_from_code(0x80010005) == Ok::<Error, u32>(Error::Core(CoreError::Exception)),
        spec_error_code(Error::Core(CoreError::AccessDenied)) == 0x80010006,
        spec_error_from_code(0x80010006) == Ok::<Error, u32>(Error::Core(CoreError::AccessDenied)),
        spec_error_code(Error::Core(CoreError::InvalidHandle)) == 0x80010007,
        spec_error_from_code(0x80010007) == Ok::<Error, u32>(Error::Core(CoreError::InvalidHandle)),
        spec_error_code(Error::Core(CoreError::InvalidIndex)) == 0x80010008,
        spec_error_from_code(0x80010008) == Ok::<Error, u32>(Error::Core(CoreError::InvalidIndex)),
        spec_error_code(Error::Core(CoreError::OutOfMemory)) == 0x80010009,
        spec_error_from_code(0x80010009) == Ok::<Error, u32>(Error::Core(CoreError::OutOfMemory)),
        spec_error_code(Error::Core(CoreError::InvalidArgument)) == 0x8001000a,
        spec_error_from_code(0x8001000a) == Ok::<Error, u32>(Error::Core(CoreError::InvalidArgument)),
        spec_error_code(Error::Core(CoreError::Timeout)) == 0x8001000b,
        spec_error_from_code(0x8001000b) == Ok::<Error, u32>(Error::Core(CoreError::Timeout)),
        spec_error_code(Error::Core(CoreError::InitializationFailure)) == 0x8001000c,
        spec_error_from_code(0x8001000c) == Ok::<Error, u32>(Error::Core(CoreError::InitializationFailure)),
        spec_error_code(Error::Core(CoreError::CallInitiationFailure)) == 0x8001000d,
        spec_error_from_code(0x8001000d) == Ok::<Error, u32>(Error::Core(CoreError::CallInitiationFailure)),
        spec_error_code(Error::Core(CoreError::RegistrationError)) == 0x8001000e,
        spec_error_from_code(0x8001000e) == Ok::<Error, u32>(Error::Core(CoreError::RegistrationError)),
        spec_error_code(Error::Core(CoreError::BufferOverflow)) == 0x8001000f,
        spec_error_from_code(0x8001000f) == Ok::<Error, u32>(Error::Core(CoreError::BufferOverflow)),
        spec_error_code(Error::Core(CoreError::InvalidLockState)) == 0x80010010,
        spec_error_from_code(0x80010010) == Ok::<Error, u32>(Error::Core(CoreError::InvalidLockState)),
        spec_error_code(Error::Core(CoreError::InvalidSequence)) == 0x80010011,
        spec_error_from_code(0x80010011) == Ok::<Error, u32>(Error::Core(CoreError::InvalidSequence)),
        spec_error_code(Error::Core(CoreError::SystemError)) == 0x80010012,
        spec_error_from_code(0x80010012) == Ok::<Error, u32>(Error::Core(CoreError::SystemError)),
        spec_error_code(Error::Core(CoreError::Cancelled)) == 0x80010013,
        spec_error_from_code(0x80010013) == Ok::<Error, u32>(Error::Core(CoreError::Cancelled)),
{
}

/// The wire codes of the DDL errors, as the protocol numbers them:
/// category 0x02, each error under its own number; each code reads back
/// as its error.
pub proof fn lemma_ddl_numbering()
    ensures
        spec_error_code(Error::DDL(DDLError::InvalidSignature)) == 0x80020001,
        spec_error_from_code(0x80020001) == Ok::<Error, u32>(Error::DDL(DDLError::InvalidSignature)),
        spec_error_code(Error::DDL(DDLError::IncorrectVersion)) == 0x80020002,
        spec_error_from_code(0x80020002) == Ok::<Error, u32>(Error::DDL(DDLError::IncorrectVersion)),
{
}

/// The wire codes of the RendezVous errors, as the protocol numbers them:
/// category 0x03, each error under its own number; each code reads back
/// as its error.
pub proof fn lemma_rendez_vous_numbering()
    ensures
        spec_error_code(Error::RendezVous(RendezVousError::ConnectionFailure)) == 0x80030001,
        spec_error_from_code(0x80030001) == Ok::<Error, u32>(Error::RendezVous(RendezVousError::ConnectionFailure)),
        spec_error_code(Error::RendezVous(RendezVousError::NotAuthenticated)) == 0x80030002,
        spec_error_from_code(0x80030002) == Ok::<Error, u32>(Error::RendezVous(RendezVousError::NotAuthenticated)),
        spec_error_code(Error::RendezVous(RendezVousError::InvalidUsername)) == 0x80030064,
        spec_error_from_code(0x80030064) == Ok::<Error, u32>(Error::RendezVous(RendezVousError::InvalidUsername)),
        spec_error_code(Error::RendezVous(RendezVousError::InvalidPassword)) == 0x80030065,
        spec_error_from_code(0x80030065) == Ok::<Error, u32>(Error::RendezVous(RendezVousError::InvalidPassword)),
        spec_error_code(Error::RendezVous(RendezVousError::UsernameAlreadyExists)) == 0x80030066,
        spec_error_from_code(0x80030066) == Ok::<Error, u32>(Error::RendezVous(RendezVousError::UsernameAlreadyExists)),
        spec_error_code(Error::RendezVous(RendezVousError::AccountDisabled)) == 0x80030067,
        spec_error_from_code(0x80030067) == Ok::<Error, u32>(Error::RendezVous(RendezVousError::AccountDisabled)),
        spec_error_code(Error::RendezVous(RendezVousError::AccountExpired)) == 0x80030068,
        spec_error_from_code(0x80030068) == Ok::<Error, u32>(Error::RendezVous(RendezVousError::AccountExpired)),
        spec_error_code(Error::RendezVous(RendezVousError::ConcurrentLoginDenied)) == 0x80030069,
        spec_error_from_code(0x80030069) == Ok::<Error, u32>(Error::RendezVous(RendezVousError::ConcurrentLoginDenied)),
        spec_error_code(Error::RendezVous(RendezVousError::EncryptionFailure)) == 0x8003006a,
        spec_error_from_code(0x8003006a) == Ok::<Error, u32>(Error::RendezVous(RendezVousError::EncryptionFailure)),
        spec_error_code(Error::RendezVous(RendezVousError::InvalidPID)) == 0x8003006b,
        spec_error_from_code(0x8003006b) == Ok::<Error, u32>(Error::RendezVous(RendezVousError::InvalidPID)),
        spec_error_code(Error::RendezVous(RendezVousError::MaxConnectionsReached)) == 0x8003006c,
        spec_error_from_code(0x8003006c) == Ok::<Error, u32>(Error::RendezVous(RendezVousError::MaxConnectionsReached)),
        spec_error_code(Error::RendezVous(RendezVousError::InvalidGID)) == 0x8003006d,
        spec_error_from_code(0x8003006d) == Ok::<Error, u32>(Error::RendezVous(RendezVousError::InvalidGID)),
        spec_error_code(Error::RendezVous(RendezVousError::InvalidControlScriptID)) == 0x8003006e,
        spec_error_from_code(0x8003006e) == Ok::<Error, u32>(Error::RendezVous(RendezVousError::InvalidControlScriptID)),
        spec_error_code(Error::RendezVous(RendezVousError::InvalidOperationInLiveEnvironment)) == 0x8003006f,
        spec_error_from_code(0x8003006f) == Ok::<Error, u32>(Error::RendezVous(RendezVousError::InvalidOperationInLiveEnvironment)),
        spec_error_code(Error::RendezVous(RendezVousError::DuplicateEntry)) == 0x80030070,
        spec_error_from_code(0x80030070) == Ok::<Error, u32>(Error::RendezVous(RendezVousError::DuplicateEntry)),
        spec_error_code(Error::RendezVous(RendezVousError::ControlScriptFailure)) == 0x80030071,
        spec_error_from_code(0x80030071) == Ok::<Error, u32>(Error::RendezVous(RendezVousError::ControlScriptFailure)),
        spec_error_code(Error::RendezVous(RendezVousError::ClassNotFound)) == 0x80030072,
        spec_error_from_code(0x80030072) == Ok::<Error, u32>(Error::RendezVous(RendezVousError::ClassNotFound)),
        spec_error_code(Error::RendezVous(RendezVousError::SessionVoid)) == 0x80030073,
        spec_error_from_code(0x80030073) == Ok::<Error, u32>(Error::RendezVous(RendezVousError::SessionVoid)),
        spec_error_code(Error::RendezVous(RendezVousError::DDLMismatch)) == 0x80030075,
        spec_error_from_code(0x80030075) == Ok::<Error, u32>(Error::RendezVous(RendezVousError::DDLMismatch)),
        spec_error_code(Error::RendezVous(RendezVousError::InvalidConfiguration)) == 0x80030076,
        spec_error_from_code(0x80030076) == Ok::<Error, u32>(Error::RendezVous(RendezVousError::InvalidConfiguration)),
        spec_error_code(Error::RendezVous(RendezVousError::SessionFull)) == 0x800300c8,
        spec_error_from_code(0x800300c8) == Ok::<Error, u32>(Error::RendezVous(RendezVousError::SessionFull)),
        spec_error_code(Error::RendezVous(RendezVousError::InvalidGatheringPassword)) == 0x800300c9,
        spec_error_from_code(0x800300c9) == Ok::<Error, u32>(Error::RendezVous(RendezVousError::InvalidGatheringPassword)),
        spec_error_code(Error::RendezVous(RendezVousError::WithoutParticipationPeriod)) == 0x800300ca,
        spec_error_from_code(0x800300ca) == Ok::<Error, u32>(Error::RendezVous(RendezVousError::WithoutParticipationPeriod)),
        spec_error_code(Error::RendezVous(RendezVousError::PersistentGatheringCreationMax)) == 0x800300cb,
        spec_error_from_code(0x800300cb) == Ok::<Error, u32>(Error::RendezVous(RendezVousError::PersistentGatheringCreationMax)),
        spec_error_code(Error::RendezVous(RendezVousError::PersistentGatheringParticipationMax)) == 0x800300cc,
        spec_error_from_code(0x800300cc) == Ok::<Error, u32>(Error::RendezVous(RendezVousError::PersistentGatheringParticipationMax)),
        spec_error_code(Error::RendezVous(RendezVousError::DeniedByParticipants)) == 0x800300cd,
        spec_error_from_code(0x800300cd) == Ok::<Error, u32>(Error::RendezVous(RendezVousError::DeniedByParticipants)),
        spec_error_code(Error::RendezVous(RendezVousError::ParticipantInBlackList)) == 0x800300ce,
        spec_error_from_code(0x800300ce) == Ok::<Error, u32>(Error::RendezVous(RendezVousError::ParticipantInBlackList)),
        spec_error_code(Error::RendezVous(RendezVousError::GameServerMaintenance)) == 0x800300cf,
        spec_error_from_code(0x800300cf) == Ok::<Error, u32>(Error::RendezVous(RendezVousError::GameServerMaintenance)),
        spec_error_code(Error::RendezVous(RendezVousError::OperationPostpone)) == 0x800300d0,
        spec_error_from_code(0x800300d0) == Ok::<Error, u32>(Error::RendezVous(RendezVousError::OperationPostpone)),
        spec_error_code(Error::RendezVous(RendezVousError::OutOfRatingRange)) == 0x800300d1,
        spec_error_from_code(0x800300d1) == Ok::<Error, u32>(Error::RendezVous(RendezVousError::OutOfRatingRange)),
        spec_error_code(Error::RendezVous(RendezVousError::ConnectionDisconnected)) == 0x800300d2,
        spec_error_from_code(0x800300d2) == Ok::<Error, u32>(Error::RendezVous(RendezVousError::ConnectionDisconnected)),
        spec_error_code(Error::RendezVous(RendezVousError::InvalidOperation)) == 0x800300d3,
        spec_error_from_code(0x800300d3) == Ok::<Error, u32>(Error::RendezVous(RendezVousError::InvalidOperation)),
        spec_error_code(Error::RendezVous(RendezVousError::NotParticipatedGathering)) == 0x800300d4,
        spec_error_from_code(0x800300d4) == Ok::<Error, u32>(Error::RendezVous(RendezVousError::NotParticipatedGathering)),
        spec_error_code(Error::RendezVous(RendezVousError::MatchmakeSessionUserPasswordUnmatch)) == 0x800300d5,
        spec_error_from_code(0x800300d5) == Ok::<Error, u32>(Error::RendezVous(RendezVousError::MatchmakeSessionUserPasswordUnmatch)),
        spec_error_code(Error::RendezVous(RendezVousError::MatchmakeSessionSystemPasswordUnmatch)) == 0x800300d6,
        spec_error_from_code(0x800300d6) == Ok::<Error, u32>(Error::RendezVous(RendezVousError::MatchmakeSessionSystemPasswordUnmatch)),
        spec_error_code(Error::RendezVous(RendezVousError::UserIsOffline)) == 0x800300d7,
        spec_error_from_code(0x800300d7) == Ok::<Error, u32>(Error::RendezVous(RendezVousError::UserIsOffline)),
        spec_error_code(Error::RendezVous(RendezVousError::AlreadyParticipatedGathering)) == 0x800300d8,
        spec_error_from_code(0x800300d8) == Ok::<Error, u32>(Error::RendezVous(RendezVousError::AlreadyParticipatedGathering)),
        spec_error_code(Error::RendezVous(RendezVousError::PermissionDenied)) == 0x800300d9,
        spec_error_from_code(0x800300d9) == Ok::<Error, u32>(Error::RendezVous(RendezVousError::PermissionDenied)),
        spec_error_code(Error::RendezVous(RendezVousError::NotFriend)) == 0x800300da,
        spec_error_from_code(0x800300da) == Ok::<Error, u32>(Error::RendezVous(RendezVousError::NotFriend)),
        spec_error_code(Error::RendezVous(RendezVousError::SessionClosed)) == 0x800300db,
        spec_error_from_code(0x800300db) == Ok::<Error, u32>(Error::RendezVous(RendezVousError::SessionClosed)),
        spec_error_code(Error::RendezVous(RendezVousError::DatabaseTemporarilyUnavailable)) == 0x800300dc,
        spec_error_from_code(0x800300dc) == Ok::<Error, u32>(Error::RendezVous(RendezVousError::DatabaseTemporarilyUnavailable)),
        spec_error_code(Error::RendezVous(RendezVousError::InvalidUniqueId)) == 0x800300dd,
        spec_error_from_code(0x800300dd) == Ok::<Error, u32>(Error::RendezVous(RendezVousError::InvalidUniqueId)),
        spec_error_code(Error::RendezVous(RendezVousError::MatchmakingWithdrawn)) == 0x800300de,
        spec_error_from_code(0x800300de) == Ok::<Error, u32>(Error::RendezVous(RendezVousError::MatchmakingWithdrawn)),
        spec_error_code(Error::RendezVous(RendezVousError::LimitExceeded)) == 0x800300df,
        spec_error_from_code(0x800300df) == Ok::<Error, u32>(Error::RendezVous(RendezVousError::LimitExceeded)),
        spec_error_code(Error::RendezVous(RendezVousError::AccountTemporarilyDisabled)) == 0x800300e0,
        spec_error_from_code(0x800300e0) == Ok::<Error, u32>(Error::RendezVous(RendezVousError::AccountTemporarilyDisabled)),
        spec_error_code(Error::RendezVous(RendezVousError::PartiallyServiceClosed)) == 0x800300e1,
        spec_error_from_code(0x800300e1) == Ok::<Error, u32>(Error::RendezVous(RendezVousError::PartiallyServiceClosed)),
        spec_error_code(Error::RendezVous(RendezVousError::ConnectionDisconnectedForConcurrentLogin)) == 0x800300e2,
        spec_error_from_code(0x800300e2) == Ok::<Error, u32>(Error::RendezVous(RendezVousError::ConnectionDisconnectedForConcurrentLogin)),
{
}

/// The wire codes of the PythonCore errors, as the protocol numbers them:
/// category 0x04, each error under its own number; each code reads back
/// as its error.
pub proof fn lemma_python_core_numbering()
    ensures
        spec_error_code(Error::PythonCore(PythonCoreError::Exception)) == 0x80040001,
        spec_error_from_code(0x80040001) == Ok::<Error, u32>(Error::PythonCore(PythonCoreError::Exception)),
        spec_error_code(Error::PythonCore(PythonCoreError::TypeError)) == 0x80040002,
        spec_error_from_code(0x80040002) == Ok::<Error, u32>(Error::PythonCore(PythonCoreError::TypeError)),
        spec_error_code(Error::PythonCore(PythonCoreError::IndexError)) == 0x80040003,
        spec_error_from_code(0x80040003) == Ok::<Error, u32>(Error::PythonCore(PythonCoreError::IndexError)),
        spec_error_code(Error::PythonCore(PythonCoreError::InvalidReference)) == 0x80040004,
        spec_error_from_code(0x80040004) == Ok::<Error, u32>(Error::PythonCore(PythonCoreError::InvalidReference)),
        spec_error_code(Error::PythonCore(PythonCoreError::CallFailure)) == 0x80040005,
        spec_error_from_code(0x80040005) == Ok::<Error, u32>(Error::PythonCore(PythonCoreError::CallFailure)),
        spec_error_code(Error::PythonCore(PythonCoreError::MemoryError)) == 0x80040006,
        spec_error_from_code(0x80040006) == Ok::<Error, u32>(Error::PythonCore(PythonCoreError::MemoryError)),
        spec_error_code(Error::PythonCore(PythonCoreError::KeyError)) == 0x80040007,
        spec_error_from_code(0x80040007) == Ok::<Error, u32>(Error::PythonCore(PythonCoreError::KeyError)),
        spec_error_code(Error::PythonCore(PythonCoreError::OperationError)) == 0x80040008,
        spec_error_from_code(0x80040008) == Ok::<Error, u32>(Error::PythonCore(PythonCoreError::OperationError)),
        spec_error_code(Error::PythonCore(PythonCoreError::ConversionError)) == 0x80040009,
        spec_error_from_code(0x80040009) == Ok::<Error, u32>(Error::PythonCore(PythonCoreError::ConversionError)),
        spec_error_code(Error::PythonCore(PythonCoreError::ValidationError)) == 0x8004000a,
        spec_error_from_code(0x8004000a) == Ok::<Error, u32>(Error::PythonCore(PythonCoreError::ValidationError)),
{
}

/// The wire codes of the Transport errors, as the protocol numbers them:
/// category 0x05, each error under its own number; each code reads back
/// as its error.
pub proof fn lemma_transport_numbering()
    ensures
        spec_error_code(Error::Transport(TransportError::Unknown)) == 0x80050001,
        spec_error_from_code(0x80050001) == Ok::<Error, u32>(Error::Transport(TransportError::Unknown)),
        spec_error_code(Error::Transport(TransportError::ConnectionFailure)) == 0x80050002,
        spec_error_from_code(0x80050002) == Ok::<Error, u32>(Error::Transport(TransportError::ConnectionFailure)),
        spec_error_code(Error::Transport(TransportError::InvalidUrl)) == 0x80050003,
        spec_error_from_code(0x80050003) == Ok::<Error, u32>(Error::Transport(TransportError::InvalidUrl)),
        spec_error_code(Error::Transport(TransportError::InvalidKey)) == 0x80050004,
        spec_error_from_code(0x80050004) == Ok::<Error, u32>(Error::Transport(TransportError::InvalidKey)),
        spec_error_code(Error::Transport(TransportError::InvalidURLType)) == 0x80050005,
        spec_error_from_code(0x80050005) == Ok::<Error, u32>(Error::Transport(TransportError::InvalidURLType)),
        spec_error_code(Error::Transport(TransportError::DuplicateEndpoint)) == 0x80050006,
        spec_error_from_code(0x80050006) == Ok::<Error, u32>(Error::Transport(TransportError::DuplicateEndpoint)),
        spec_error_code(Error::Transport(TransportError::IOError)) == 0x80050007,
        spec_error_from_code(0x80050007) == Ok::<Error, u32>(Error::Transport(TransportError::IOError)),
        spec_error_code(Error::Transport(TransportError::Timeout)) == 0x80050008,
        spec_error_from_code(0x80050008) == Ok::<Error, u32>(Error::Transport(TransportError::Timeout)),
        spec_error_code(Error::Transport(TransportError::ConnectionReset)) == 0x80050009,
        spec_error_from_code(0x80050009) == Ok::<Error, u32>(Error::Transport(TransportError::ConnectionReset)),
        spec_error_code(Error::Transport(TransportError::IncorrectRemoteAuthentication)) == 0x8005000a,
        spec_error_from_code(0x8005000a) == Ok::<Error, u32>(Error::Transport(TransportError::IncorrectRemoteAuthentication)),
        spec_error_code(Error::Transport(TransportError::ServerRequestError)) == 0x8005000b,
        spec_error_from_code(0x8005000b) == Ok::<Error, u32>(Error::Transport(TransportError::ServerRequestError)),
        spec_error_code(Error::Transport(TransportError::DecompressionFailure)) == 0x8005000c,
        spec_error_from_code(0x8005000c) == Ok::<Error, u32>(Error::Transport(TransportError::DecompressionFailure)),
        spec_error_code(Error::Transport(TransportError::ReliableSendBufferFullFatal)) == 0x8005000d,
        spec_error_from_code(0x8005000d) == Ok::<Error, u32>(Error::Transport(TransportError::ReliableSendBufferFullFatal)),
        spec_error_code(Error::Transport(TransportError::UPnPCannotInit)) == 0x8005000e,
        spec_error_from_code(0x8005000e) == Ok::<Error, u32>(Error::Transport(TransportError::UPnPCannotInit)),
        spec_error_code(Error::Transport(TransportError::UPnPCannotAddMapping)) == 0x8005000f,
        spec_error_from_code(0x8005000f) == Ok::<Error, u32>(Error::Transport(TransportError::UPnPCannotAddMapping)),
        spec_error_code(Error::Transport(TransportError::NatPMPCannotInit)) == 0x80050010,
        spec_error_from_code(0x80050010) == Ok::<Error, u32>(Error::Transport(TransportError::NatPMPCannotInit)),
        spec_error_code(Error::Transport(TransportError::NatPMPCannotAddMapping)) == 0x80050011,
        spec_error_from_code(0x80050011) == Ok::<Error, u32>(Error::Transport(TransportError::NatPMPCannotAddMapping)),
        spec_error_code(Error::Transport(TransportError::UnsupportedNAT)) == 0x80050013,
        spec_error_from_code(0x80050013) == Ok::<Error, u32>(Error::Transport(TransportError::UnsupportedNAT)),
        spec_error_code(Error::Transport(TransportError::DnsError)) == 0x80050014,
        spec_error_from_code(0x80050014) == Ok::<Error, u32>(Error::Transport(TransportError::DnsError)),
        spec_error_code(Error::Transport(TransportError::ProxyError)) == 0x80050015,
        spec_error_from_code(0x80050015) == Ok::<Error, u32>(Error::Transport(TransportError::ProxyError)),
        spec_error_code(Error::Transport(TransportError::DataRemaining)) == 0x80050016,
        spec_error_from_code(0x80050016) == Ok::<Error, u32>(Error::Transport(TransportError::DataRemaining)),
        spec_error_code(Error::Transport(TransportError::NoBuffer)) == 0x80050017,
        spec_error_from_code(0x80050017) == Ok::<Error, u32>(Error::Transport(TransportError::NoBuffer)),
        spec_error_code(Error::Transport(TransportError::NotFound)) == 0x80050018,
        spec_error_from_code(0x80050018) == Ok::<Error, u32>(Error::Transport(TransportError::NotFound)),
        spec_error_code(Error::Transport(TransportError::TemporaryServerError)) == 0x80050019,
        spec_error_from_code(0x80050019) == Ok::<Error, u32>(Error::Transport(TransportError::TemporaryServerError)),
        spec_error_code(Error::Transport(TransportError::PermanentServerError)) == 0x8005001a,
        spec_error_from_code(0x8005001a) == Ok::<Error, u32>(Error::Transport(TransportError::PermanentServerError)),
        spec_error_code(Error::Transport(TransportError::ServiceUnavailable)) == 0x8005001b,
        spec_error_from_code(0x8005001b) == Ok::<Error, u32>(Error::Transport(TransportError::ServiceUnavailable)),
        spec_error_code(Error::Transport(TransportError::ReliableSendBufferFull)) == 0x8005001c,
        spec_error_from_code(0x8005001c) == Ok::<Error, u32>(Error::Transport(TransportError::ReliableSendBufferFull)),
        spec_error_code(Error::Transport(TransportError::InvalidStation)) == 0x8005001d,
        spec_error_from_code(0x8005001d) == Ok::<Error, u32>(Error::Transport(TransportError::InvalidStation)),
        spec_error_code(Error::Transport(TransportError::InvalidSubStreamID)) == 0x8005001e,
        spec_error_from_code(0x8005001e) == Ok::<Error, u32>(Error::Transport(TransportError::InvalidSubStreamID)),
        spec_error_code(Error::Transport(TransportError::PacketBufferFull)) == 0x8005001f,
        spec_error_from_code(0x8005001f) == Ok::<Error, u32>(Error::Transport(TransportError::PacketBufferFull)),
        spec_error_code(Error::Transport(TransportError::NatTraversalError)) == 0x80050020,
        spec_error_from_code(0x80050020) == Ok::<Error, u32>(Error::Transport(TransportError::NatTraversalError)),
        spec_error_code(Error::Transport(TransportError::NatCheckError)) == 0x80050021,
        spec_error_from_code(0x80050021) == Ok::<Error, u32>(Error::Transport(TransportError::NatCheckError)),
{
}

/// The wire codes of the DOCore errors, as the protocol numbers them:
/// category 0x06, each error under its own number; each code reads back
/// as its error.
pub proof fn lemma_do_core_numbering()
    ensures
        spec_error_code(Error::DOCore(DOCoreError::StationNotReached)) == 0x80060001,
        spec_error_from_code(0x80060001) == Ok::<Error, u32>(Error::DOCore(DOCoreError::StationNotReached)),
        spec_error_code(Error::DOCore(DOCoreError::TargetStationDisconnect)) == 0x80060002,
        spec_error_from_code(0x80060002) == Ok::<Error, u32>(Error::DOCore(DOCoreError::TargetStationDisconnect)),
        spec_error_code(Error::DOCore(DOCoreError::LocalStationLeaving)) == 0x80060003,
        spec_error_from_code(0x80060003) == Ok::<Error, u32>(Error::DOCore(DOCoreError::LocalStationLeaving)),
        spec_error_code(Error::DOCore(DOCoreError::ObjectNotFound)) == 0x80060004,
        spec_error_from_code(0x80060004) == Ok::<Error, u32>(Error::DOCore(DOCoreError::ObjectNotFound)),
        spec_error_code(Error::DOCore(DOCoreError::InvalidRole)) == 0x80060005,
        spec_error_from_code(0x80060005) == Ok::<Error, u32>(Error::DOCore(DOCoreError::InvalidRole)),
        spec_error_code(Error::DOCore(DOCoreError::CallTimeout)) == 0x80060006,
        spec_error_from_code(0x80060006) == Ok::<Error, u32>(Error::DOCore(DOCoreError::CallTimeout)),
        spec_error_code(Error::DOCore(DOCoreError::RMCDispatchFailed)) == 0x80060007,
        spec_error_from_code(0x80060007) == Ok::<Error, u32>(Error::DOCore(DOCoreError::RMCDispatchFailed)),
        spec_error_code(Error::DOCore(DOCoreError::MigrationInProgress)) == 0x80060008,
        spec_error_from_code(0x80060008) == Ok::<Error, u32>(Error::DOCore(DOCoreError::MigrationInProgress)),
        spec_error_code(Error::DOCore(DOCoreError::NoAuthority)) == 0x80060009,
        spec_error_from_code(0x80060009) == Ok::<Error, u32>(Error::DOCore(DOCoreError::NoAuthority)),
        spec_error_code(Error::DOCore(DOCoreError::NoTargetStationSpecified)) == 0x8006000a,
        spec_error_from_code(0x8006000a) == Ok::<Error, u32>(Error::DOCore(DOCoreError::NoTargetStationSpecified)),
        spec_error_code(Error::DOCore(DOCoreError::JoinFailed)) == 0x8006000b,
        spec_error_from_code(0x8006000b) == Ok::<Error, u32>(Error::DOCore(DOCoreError::JoinFailed)),
        spec_error_code(Error::DOCore(DOCoreError::JoinDenied)) == 0x8006000c,
        spec_error_from_code(0x8006000c) == Ok::<Error, u32>(Error::DOCore(DOCoreError::JoinDenied)),
        spec_error_code(Error::DOCore(DOCoreError::ConnectivityTestFailed)) == 0x8006000d,
        spec_error_from_code(0x8006000d) == Ok::<Error, u32>(Error::DOCore(DOCoreError::ConnectivityTestFailed)),
        spec_error_code(Error::DOCore(DOCoreError::Unknown)) == 0x8006000e,
        spec_error_from_code(0x8006000e) == Ok::<Error, u32>(Error::DOCore(DOCoreError::Unknown)),
        spec_error_code(Error::DOCore(DOCoreError::UnfreedReferences)) == 0x8006000f,
        spec_error_from_code(0x8006000f) == Ok::<Error, u32>(Error::DOCore(DOCoreError::UnfreedReferences)),
        spec_error_code(Error::DOCore(DOCoreError::JobTerminationFailed)) == 0x80060010,
        spec_error_from_code(0x80060010) == Ok::<Error, u32>(Error::DOCore(DOCoreError::JobTerminationFailed)),
        spec_error_code(Error::DOCore(DOCoreError::InvalidState)) == 0x80060011,
        spec_error_from_code(0x80060011) == Ok::<Error, u32>(Error::DOCore(DOCoreError::InvalidState)),
        spec_error_code(Error::DOCore(DOCoreError::FaultRecoveryFatal)) == 0x80060012,
        spec_error_from_code(0x80060012) == Ok::<Error, u32>(Error::DOCore(DOCoreError::FaultRecoveryFatal)),
        spec_error_code(Error::DOCore(DOCoreError::FaultRecoveryJobProcessFailed)) == 0x80060013,
        spec_error_from_code(0x80060013) == Ok::<Error, u32>(Error::DOCore(DOCoreError::FaultRecoveryJobProcessFailed)),
        spec_error_code(Error::DOCore(DOCoreError::StationInconsitency)) == 0x80060014,
        spec_error_from_code(0x80060014) == Ok::<Error, u32>(Error::DOCore(DOCoreError::StationInconsitency)),
        spec_error_code(Error::DOCore(DOCoreError::AbnormalMasterState)) == 0x80060015,
        spec_error_from_code(0x80060015) == Ok::<Error, u32>(Error::DOCore(DOCoreError::AbnormalMasterState)),
        spec_error_code(Error::DOCore(DOCoreError::VersionMismatch)) == 0x80060016,
        spec_error_from_code(0x80060016) == Ok::<Error, u32>(Error::DOCore(DOCoreError::VersionMismatch)),
{
}

/// The wire codes of the FPD errors, as the protocol numbers them:
/// category 0x65, each error under its own number; each code reads back
/// as its error.
#[verifier::rlimit(60)]
pub proof fn lemma_fpd_numbering()
    ensures
        spec_error_code(Error::FPD(FPDError::NotInitialized)) == 0x80650000,
        spec_error_from_code(0x80650000) == Ok::<Error, u32>(Error::FPD(FPDError::NotInitialized)),
        spec_error_code(Error::FPD(FPDError::AlreadyInitialized)) == 0x80650001,
        spec_error_from_code(0x80650001) == Ok::<Error, u32>(Error::FPD(FPDError::AlreadyInitialized)),
        spec_error_code(Error::FPD(FPDError::NotConnected)) == 0x80650002,
        spec_error_from_code(0x80650002) == Ok::<Error, u32>(Error::FPD(FPDError::NotConnected)),
        spec_error_code(Error::FPD(FPDError::Connected)) == 0x80650003,
        spec_error_from_code(0x80650003) == Ok::<Error, u32>(Error::FPD(FPDError::Connected)),
        spec_error_code(Error::FPD(FPDError::InitializationFailure)) == 0x80650004,
        spec_error_from_code(0x80650004) == Ok::<Error, u32>(Error::FPD(FPDError::InitializationFailure)),
        spec_error_code(Error::FPD(FPDError::OutOfMemory)) == 0x80650005,
        spec_error_from_code(0x80650005) == Ok::<Error, u32>(Error::FPD(FPDError::OutOfMemory)),
        spec_error_code(Error::FPD(FPDError::RmcFailed)) == 0x80650006,
        spec_error_from_code(0x80650006) == Ok::<Error, u32>(Error::FPD(FPDError::RmcFailed)),
        spec_error_code(Error::FPD(FPDError::InvalidArgument)) == 0x80650007,
        spec_error_from_code(0x80650007) == Ok::<Error, u32>(Error::FPD(FPDError::InvalidArgument)),
        spec_error_code(Error::FPD(FPDError::InvalidLocalAccountID)) == 0x80650008,
        spec_error_from_code(0x80650008) == Ok::<Error, u32>(Error::FPD(FPDError::InvalidLocalAccountID)),
        spec_error_code(Error::FPD(FPDError::InvalidPrincipalID)) == 0x80650009,
        spec_error_from_code(0x80650009) == Ok::<Error, u32>(Error::FPD(FPDError::InvalidPrincipalID)),
        spec_error_code(Error::FPD(FPDError::InvalidLocalFriendCode)) == 0x8065000a,
        spec_error_from_code(0x8065000a) == Ok::<Error, u32>(Error::FPD(FPDError::InvalidLocalFriendCode)),
        spec_error_code(Error::FPD(FPDError::LocalAccountNotExists)) == 0x8065000b,
        spec_error_from_code(0x8065000b) == Ok::<Error, u32>(Error::FPD(FPDError::LocalAccountNotExists)),
        spec_error_code(Error::FPD(FPDError::LocalAccountNotLoaded)) == 0x8065000c,
        spec_error_from_code(0x8065000c) == Ok::<Error, u32>(Error::FPD(FPDError::LocalAccountNotLoaded)),
        spec_error_code(Error::FPD(FPDError::LocalAccountAlreadyLoaded)) == 0x8065000d,
        spec_error_from_code(0x8065000d) == Ok::<Error, u32>(Error::FPD(FPDError::LocalAccountAlreadyLoaded)),
        spec_error_code(Error::FPD(FPDError::FriendAlreadyExists)) == 0x8065000e,
        spec_error_from_code(0x8065000e) == Ok::<Error, u32>(Error::FPD(FPDError::FriendAlreadyExists)),
        spec_error_code(Error::FPD(FPDError::FriendNotExists)) == 0x8065000f,
        spec_error_from_code(0x8065000f) == Ok::<Error, u32>(Error::FPD(FPDError::FriendNotExists)),
        spec_error_code(Error::FPD(FPDError::FriendNumMax)) == 0x80650010,
        spec_error_from_code(0x80650010) == Ok::<Error, u32>(Error::FPD(FPDError::FriendNumMax)),
        spec_error_code(Error::FPD(FPDError::NotFriend)) == 0x80650011,
        spec_error_from_code(0x80650011) == Ok::<Error, u32>(Error::FPD(FPDError::NotFriend)),
        spec_error_code(Error::FPD(FPDError::FileIO)) == 0x80650012,
        spec_error_from_code(0x80650012) == Ok::<Error, u32>(Error::FPD(FPDError::FileIO)),
        spec_error_code(Error::FPD(FPDError::P2PInternetProhibited)) == 0x80650013,
        spec_error_from_code(0x80650013) == Ok::<Error, u32>(Error::FPD(FPDError::P2PInternetProhibited)),
        spec_error_code(Error::FPD(FPDError::Unknown)) == 0x80650014,
        spec_error_from_code(0x80650014) == Ok::<Error, u32>(Error::FPD(FPDError::Unknown)),
        spec_error_code(Error::FPD(FPDError::InvalidState)) == 0x80650015,
        spec_error_from_code(0x80650015) == Ok::<Error, u32>(Error::FPD(FPDError::InvalidState)),
        spec_error_code(Error::FPD(FPDError::AddFriendProhibited)) == 0x80650017,
        spec_error_from_code(0x80650017) == Ok::<Error, u32>(Error::FPD(FPDError::AddFriendProhibited)),
        spec_error_code(Error::FPD(FPDError::InvalidAccount)) == 0x80650019,
        spec_error_from_code(0x80650019) == Ok::<Error, u32>(Error::FPD(FPDError::InvalidAccount)),
        spec_error_code(Error::FPD(FPDError::BlacklistedByMe)) == 0x8065001a,
        spec_error_from_code(0x8065001a) == Ok::<Error, u32>(Error::FPD(FPDError::BlacklistedByMe)),
        spec_error_code(Error::FPD(FPDError::FriendAlreadyAdded)) == 0x8065001c,
        spec_error_from_code(0x8065001c) == Ok::<Error, u32>(Error::FPD(FPDError::FriendAlreadyAdded)),
        spec_error_code(Error::FPD(FPDError::MyFriendListLimitExceed)) == 0x8065001d,
        spec_error_from_code(0x8065001d) == Ok::<Error, u32>(Error::FPD(FPDError::MyFriendListLimitExceed)),
        spec_error_code(Error::FPD(FPDError::RequestLimitExceed)) == 0x8065001e,
        spec_error_from_code(0x8065001e) == Ok::<Error, u32>(Error::FPD(FPDError::RequestLimitExceed)),
        spec_error_code(Error::FPD(FPDError::InvalidMessageID)) == 0x8065001f,
        spec_error_from_code(0x8065001f) == Ok::<Error, u32>(Error::FPD(FPDError::InvalidMessageID)),
        spec_error_code(Error::FPD(FPDError::MessageIsNotMine)) == 0x80650020,
        spec_error_from_code(0x80650020) == Ok::<Error, u32>(Error::FPD(FPDError::MessageIsNotMine)),
        spec_error_code(Error::FPD(FPDError::MessageIsNotForMe)) == 0x80650021,
        spec_error_from_code(0x80650021) == Ok::<Error, u32>(Error::FPD(FPDError::MessageIsNotForMe)),
        spec_error_code(Error::FPD(FPDError::FriendRequestBlocked)) == 0x80650022,
        spec_error_from_code(0x80650022) == Ok::<Error, u32>(Error::FPD(FPDError::FriendRequestBlocked)),
        spec_error_code(Error::FPD(FPDError::NotInMyFriendList)) == 0x80650023,
        spec_error_from_code(0x80650023) == Ok::<Error, u32>(Error::FPD(FPDError::NotInMyFriendList)),
        spec_error_code(Error::FPD(FPDError::FriendListedByMe)) == 0x80650024,
        spec_error_from_code(0x80650024) == Ok::<Error, u32>(Error::FPD(FPDError::FriendListedByMe)),
        spec_error_code(Error::FPD(FPDError::NotInMyBlacklist)) == 0x80650025,
        spec_error_from_code(0x80650025) == Ok::<Error, u32>(Error::FPD(FPDError::NotInMyBlacklist)),
        spec_error_code(Error::FPD(FPDError::IncompatibleAccount)) == 0x80650026,
        spec_error_from_code(0x80650026) == Ok::<Error, u32>(Error::FPD(FPDError::IncompatibleAccount)),
        spec_error_code(Error::FPD(FPDError::BlockSettingChangeNotAllowed)) == 0x80650027,
        spec_error_from_code(0x80650027) == Ok::<Error, u32>(Error::FPD(FPDError::BlockSettingChangeNotAllowed)),
        spec_error_code(Error::FPD(FPDError::SizeLimitExceeded)) == 0x80650028,
        spec_error_from_code(0x80650028) == Ok::<Error, u32>(Error::FPD(FPDError::SizeLimitExceeded)),
        spec_error_code(Error::FPD(FPDError::OperationNotAllowed)) == 0x80650029,
        spec_error_from_code(0x80650029) == Ok::<Error, u32>(Error::FPD(FPDError::OperationNotAllowed)),
        spec_error_code(Error::FPD(FPDError::NotNetworkAccount)) == 0x8065002a,
        spec_error_from_code(0x8065002a) == Ok::<Error, u32>(Error::FPD(FPDError::NotNetworkAccount)),
        spec_error_code(Error::FPD(FPDError::NotificationNotFound)) == 0x8065002b,
        spec_error_from_code(0x8065002b) == Ok::<Error, u32>(Error::FPD(FPDError::NotificationNotFound)),
        spec_error_code(Error::FPD(FPDError::PreferenceNotInitialized)) == 0x8065002c,
        spec_error_from_code(0x8065002c) == Ok::<Error, u32>(Error::FPD(FPDError::PreferenceNotInitialized)),
        spec_error_code(Error::FPD(FPDError::FriendRequestNotAllowed)) == 0x8065002d,
        spec_error_from_code(0x8065002d) == Ok::<Error, u32>(Error::FPD(FPDError::FriendRequestNotAllowed)),
{
}

/// The wire codes of the Ranking errors, as the protocol numbers them:
/// category 0x67, each error under its own number; each code reads back
/// as its error.
pub proof fn lemma_ranking_numbering()
    ensures
        spec_error_code(Error::Ranking(RankingError::NotInitialized)) == 0x80670001,
        spec_error_from_code(0x80670001) == Ok::<Error, u32>(Error::Ranking(RankingError::NotInitialized)),
        spec_error_code(Error::Ranking(RankingError::InvalidArgument)) == 0x80670002,
        spec_error_from_code(0x80670002) == Ok::<Error, u32>(Error::Ranking(RankingError::InvalidArgument)),
        spec_error_code(Error::Ranking(RankingError::RegistrationError)) == 0x80670003,
        spec_error_from_code(0x80670003) == Ok::<Error, u32>(Error::Ranking(RankingError::RegistrationError)),
        spec_error_code(Error::Ranking(RankingError::NotFound)) == 0x80670005,
        spec_error_from_code(0x80670005) == Ok::<Error, u32>(Error::Ranking(RankingError::NotFound)),
        spec_error_code(Error::Ranking(RankingError::InvalidScore)) == 0x80670006,
        spec_error_from_code(0x80670006) == Ok::<Error, u32>(Error::Ranking(RankingError::InvalidScore)),
        spec_error_code(Error::Ranking(RankingError::InvalidDataSize)) == 0x80670007,
        spec_error_from_code(0x80670007) == Ok::<Error, u32>(Error::Ranking(RankingError::InvalidDataSize)),
        spec_error_code(Error::Ranking(RankingError::PermissionDenied)) == 0x80670009,
        spec_error_from_code(0x80670009) == Ok::<Error, u32>(Error::Ranking(RankingError::PermissionDenied)),
        spec_error_code(Error::Ranking(RankingError::Unknown)) == 0x8067000a,
        spec_error_from_code(0x8067000a) == Ok::<Error, u32>(Error::Ranking(RankingError::Unknown)),
        spec_error_code(Error::Ranking(RankingError::NotImplemented)) == 0x8067000b,
        spec_error_from_code(0x8067000b) == Ok::<Error, u32>(Error::Ranking(RankingError::NotImplemented)),
{
}

/// The wire codes of the Authentication errors, as the protocol numbers them:
/// category 0x68, each error under its own number; each code reads back
/// as its error.
pub proof fn lemma_authentication_numbering()
    ensures
        spec_error_code(Error::Authentication(AuthenticationError::NASAuthenticateError)) == 0x80680001,
        spec_error_from_code(0x80680001) == Ok::<Error, u32>(Error::Authentication(AuthenticationError::NASAuthenticateError)),
        spec_error_code(Error::Authentication(AuthenticationError::TokenParseError)) == 0x80680002,
        spec_error_from_code(0x80680002) == Ok::<Error, u32>(Error::Authentication(AuthenticationError::TokenParseError)),
        spec_error_code(Error::Authentication(AuthenticationError::HttpConnectionError)) == 0x80680003,
        spec_error_from_code(0x80680003) == Ok::<Error, u32>(Error::Authentication(AuthenticationError::HttpConnectionError)),
        spec_error_code(Error::Authentication(AuthenticationError::HttpDNSError)) == 0x80680004,
        spec_error_from_code(0x80680004) == Ok::<Error, u32>(Error::Authentication(AuthenticationError::HttpDNSError)),
        spec_error_code(Error::Authentication(AuthenticationError::HttpGetProxySetting)) == 0x80680005,
        spec_error_from_code(0x80680005) == Ok::<Error, u32>(Error::Authentication(AuthenticationError::HttpGetProxySetting)),
        spec_error_code(Error::Authentication(AuthenticationError::TokenExpired)) == 0x80680006,
        spec_error_from_code(0x80680006) == Ok::<Error, u32>(Error::Authentication(AuthenticationError::TokenExpired)),
        spec_error_code(Error::Authentication(AuthenticationError::ValidationFailed)) == 0x80680007,
        spec_error_from_code(0x80680007) == Ok::<Error, u32>(Error::Authentication(AuthenticationError::ValidationFailed)),
        spec_error_code(Error::Authentication(AuthenticationError::InvalidParam)) == 0x80680008,
        spec_error_from_code(0x80680008) == Ok::<Error, u32>(Error::Authentication(AuthenticationError::InvalidParam)),
        spec_error_code(Error::Authentication(AuthenticationError::PrincipalIdUnmatched)) == 0x80680009,
        spec_error_from_code(0x80680009) == Ok::<Error, u32>(Error::Authentication(AuthenticationError::PrincipalIdUnmatched)),
        spec_error_code(Error::Authentication(AuthenticationError::MoveCountUnmatch)) == 0x8068000a,
        spec_error_from_code(0x8068000a) == Ok::<Error, u32>(Error::Authentication(AuthenticationError::MoveCountUnmatch)),
        spec_error_code(Error::Authentication(AuthenticationError::UnderMaintenance)) == 0x8068000b,
        spec_error_from_code(0x8068000b) == Ok::<Error, u32>(Error::Authentication(AuthenticationError::UnderMaintenance)),
        spec_error_code(Error::Authentication(AuthenticationError::UnsupportedVersion)) == 0x8068000c,
        spec_error_from_code(0x8068000c) == Ok::<Error, u32>(Error::Authentication(AuthenticationError::UnsupportedVersion)),
        spec_error_code(Error::Authentication(AuthenticationError::ServerVersionIsOld)) == 0x8068000d,
        spec_error_from_code(0x8068000d) == Ok::<Error, u32>(Error::Authentication(AuthenticationError::ServerVersionIsOld)),
        spec_error_code(Error::Authentication(AuthenticationError::Unknown)) == 0x8068000e,
        spec_error_from_code(0x8068000e) == Ok::<Error, u32>(Error::Authentication(AuthenticationError::Unknown)),
        spec_error_code(Error::Authentication(AuthenticationError::ClientVersionIsOld)) == 0x8068000f,
        spec_error_from_code(0x8068000f) == Ok::<Error, u32>(Error::Authentication(AuthenticationError::ClientVersionIsOld)),
        spec_error_code(Error::Authentication(AuthenticationError::AccountLibraryError)) == 0x80680010,
        spec_error_from_code(0x80680010) == Ok::<Error, u32>(Error::Authentication(AuthenticationError::AccountLibraryError)),
        spec_error_code(Error::Authentication(AuthenticationError::ServiceNoLongerAvailable)) == 0x80680011,
        spec_error_from_code(0x80680011) == Ok::<Error, u32>(Error::Authentication(AuthenticationError::ServiceNoLongerAvailable)),
        spec_error_code(Error::Authentication(AuthenticationError::UnknownApplication)) == 0x80680012,
        spec_error_from_code(0x80680012) == Ok::<Error, u32>(Error::Authentication(AuthenticationError::UnknownApplication)),
        spec_error_code(Error::Authentication(AuthenticationError::ApplicationVersionIsOld)) == 0x80680013,
        spec_error_from_code(0x80680013) == Ok::<Error, u32>(Error::Authentication(AuthenticationError::ApplicationVersionIsOld)),
        spec_error_code(Error::Authentication(AuthenticationError::OutOfService)) == 0x80680014,
        spec_error_from_code(0x80680014) == Ok::<Error, u32>(Error::Authentication(AuthenticationError::OutOfService)),
        spec_error_code(Error::Authentication(AuthenticationError::NetworkServiceLicenseRequired)) == 0x80680015,
        spec_error_from_code(0x80680015) == Ok::<Error, u32>(Error::Authentication(AuthenticationError::NetworkServiceLicenseRequired)),
        spec_error_code(Error::Authentication(AuthenticationError::NetworkServiceLicenseSystemError)) == 0x80680016,
        spec_error_from_code(0x80680016) == Ok::<Error, u32>(Error::Authentication(AuthenticationError::NetworkServiceLicenseSystemError)),
        spec_error_code(Error::Authentication(AuthenticationError::NetworkServiceLicenseError3)) == 0x80680017,
        spec_error_from_code(0x80680017) == Ok::<Error, u32>(Error::Authentication(AuthenticationError::NetworkServiceLicenseError3)),
        spec_error_code(Error::Authentication(AuthenticationError::NetworkServiceLicenseError4)) == 0x80680018,
        spec_error_from_code(0x80680018) == Ok::<Error, u32>(Error::Authentication(AuthenticationError::NetworkServiceLicenseError4)),
{
}

/// The wire codes of the DataStore errors, as the protocol numbers them:
/// category 0x69, each error under its own number; each code reads back
/// as its error.
pub proof fn lemma_data_store_numbering()
    ensures
        spec_error_code(Error::DataStore(DataStoreError::Unknown)) == 0x80690001,
        spec_error_from_code(0x80690001) == Ok::<Error, u32>(Error::DataStore(DataStoreError::Unknown)),
        spec_error_code(Error::DataStore(DataStoreError::InvalidArgument)) == 0x80690002,
        spec_error_from_code(0x80690002) == Ok::<Error, u32>(Error::DataStore(DataStoreError::InvalidArgument)),
        spec_error_code(Error::DataStore(DataStoreError::PermissionDenied)) == 0x80690003,
        spec_error_from_code(0x80690003) == Ok::<Error, u32>(Error::DataStore(DataStoreError::PermissionDenied)),
        spec_error_code(Error::DataStore(DataStoreError::NotFound)) == 0x80690004,
        spec_error_from_code(0x80690004) == Ok::<Error, u32>(Error::DataStore(DataStoreError::NotFound)),
        spec_error_code(Error::DataStore(DataStoreError::AlreadyLocked)) == 0x80690005,
        spec_error_from_code(0x80690005) == Ok::<Error, u32>(Error::DataStore(DataStoreError::AlreadyLocked)),
        spec_error_code(Error::DataStore(DataStoreError::UnderReviewing)) == 0x80690006,
        spec_error_from_code(0x80690006) == Ok::<Error, u32>(Error::DataStore(DataStoreError::UnderReviewing)),
        spec_error_code(Error::DataStore(DataStoreError::Expired)) == 0x80690007,
        spec_error_from_code(0x80690007) == Ok::<Error, u32>(Error::DataStore(DataStoreError::Expired)),
        spec_error_code(Error::DataStore(DataStoreError::InvalidCheckToken)) == 0x80690008,
        spec_error_from_code(0x80690008) == Ok::<Error, u32>(Error::DataStore(DataStoreError::InvalidCheckToken)),
        spec_error_code(Error::DataStore(DataStoreError::SystemFileError)) == 0x80690009,
        spec_error_from_code(0x80690009) == Ok::<Error, u32>(Error::DataStore(DataStoreError::SystemFileError)),
        spec_error_code(Error::DataStore(DataStoreError::OverCapacity)) == 0x8069000a,
        spec_error_from_code(0x8069000a) == Ok::<Error, u32>(Error::DataStore(DataStoreError::OverCapacity)),
        spec_error_code(Error::DataStore(DataStoreError::OperationNotAllowed)) == 0x8069000b,
        spec_error_from_code(0x8069000b) == Ok::<Error, u32>(Error::DataStore(DataStoreError::OperationNotAllowed)),
        spec_error_code(Error::DataStore(DataStoreError::InvalidPassword)) == 0x8069000c,
        spec_error_from_code(0x8069000c) == Ok::<Error, u32>(Error::DataStore(DataStoreError::InvalidPassword)),
        spec_error_code(Error::DataStore(DataStoreError::ValueNotEqual)) == 0x8069000d,
        spec_error_from_code(0x8069000d) == Ok::<Error, u32>(Error::DataStore(DataStoreError::ValueNotEqual)),
{
}

/// The wire codes of the ServiceItem errors, as the protocol numbers them:
/// category 0x6c, each error under its own number; each code reads back
/// as its error.
pub proof fn lemma_service_item_numbering()
    ensures
        spec_error_code(Error::ServiceItem(ServiceItemError::Unknown)) == 0x806c0001,
        spec_error_from_code(0x806c0001) == Ok::<Error, u32>(Error::ServiceItem(ServiceItemError::Unknown)),
        spec_error_code(Error::ServiceItem(ServiceItemError::InvalidArgument)) == 0x806c0002,
        spec_error_from_code(0x806c0002) == Ok::<Error, u32>(Error::ServiceItem(ServiceItemError::InvalidArgument)),
        spec_error_code(Error::ServiceItem(ServiceItemError::EShopUnknownHttpError)) == 0x806c0003,
        spec_error_from_code(0x806c0003) == Ok::<Error, u32>(Error::ServiceItem(ServiceItemError::EShopUnknownHttpError)),
        spec_error_code(Error::ServiceItem(ServiceItemError::EShopResponseParseError)) == 0x806c0004,
        spec_error_from_code(0x806c0004) == Ok::<Error, u32>(Error::ServiceItem(ServiceItemError::EShopResponseParseError)),
        spec_error_code(Error::ServiceItem(ServiceItemError::NotOwned)) == 0x806c0005,
        spec_error_from_code(0x806c0005) == Ok::<Error, u32>(Error::ServiceItem(ServiceItemError::NotOwned)),
        spec_error_code(Error::ServiceItem(ServiceItemError::InvalidLimitationType)) == 0x806c0006,
        spec_error_from_code(0x806c0006) == Ok::<Error, u32>(Error::ServiceItem(ServiceItemError::InvalidLimitationType)),
        spec_error_code(Error::ServiceItem(ServiceItemError::ConsumptionRightShortage)) == 0x806c0007,
        spec_error_from_code(0x806c0007) == Ok::<Error, u32>(Error::ServiceItem(ServiceItemError::ConsumptionRightShortage)),
{
}

/// The wire codes of the MatchmakeReferee errors, as the protocol numbers them:
/// category 0x6f, each error under its own number; each code reads back
/// as its error.
pub proof fn lemma_matchmake_referee_numbering()
    ensures
        spec_error_code(Error::MatchmakeReferee(MatchmakeRefereeError::Unknown)) == 0x806f0001,
        spec_error_from_code(0x806f0001) == Ok::<Error, u32>(Error::MatchmakeReferee(MatchmakeRefereeError::Unknown)),
        spec_error_code(Error::MatchmakeReferee(MatchmakeRefereeError::InvalidArgument)) == 0x806f0002,
        spec_error_from_code(0x806f0002) == Ok::<Error, u32>(Error::MatchmakeReferee(MatchmakeRefereeError::InvalidArgument)),
        spec_error_code(Error::MatchmakeReferee(MatchmakeRefereeError::AlreadyExists)) == 0x806f0003,
        spec_error_from_code(0x806f0003) == Ok::<Error, u32>(Error::MatchmakeReferee(MatchmakeRefereeError::AlreadyExists)),
        spec_error_code(Error::MatchmakeReferee(MatchmakeRefereeError::NotParticipatedGathering)) == 0x806f0004,
        spec_error_from_code(0x806f0004) == Ok::<Error, u32>(Error::MatchmakeReferee(MatchmakeRefereeError::NotParticipatedGathering)),
        spec_error_code(Error::MatchmakeReferee(MatchmakeRefereeError::NotParticipatedRound)) == 0x806f0005,
        spec_error_from_code(0x806f0005) == Ok::<Error, u32>(Error::MatchmakeReferee(MatchmakeRefereeError::NotParticipatedRound)),
        spec_error_code(Error::MatchmakeReferee(MatchmakeRefereeError::StatsNotFound)) == 0x806f0006,
        spec_error_from_code(0x806f0006) == Ok::<Error, u32>(Error::MatchmakeReferee(MatchmakeRefereeError::StatsNotFound)),
        spec_error_code(Error::MatchmakeReferee(MatchmakeRefereeError::RoundNotFound)) == 0x806f0007,
        spec_error_from_code(0x806f0007) == Ok::<Error, u32>(Error::MatchmakeReferee(MatchmakeRefereeError::RoundNotFound)),
        spec_error_code(Error::MatchmakeReferee(MatchmakeRefereeError::RoundArbitrated)) == 0x806f0008,
        spec_error_from_code(0x806f0008) == Ok::<Error, u32>(Error::MatchmakeReferee(MatchmakeRefereeError::RoundArbitrated)),
        spec_error_code(Error::MatchmakeReferee(MatchmakeRefereeError::RoundNotArbitrated)) == 0x806f0009,
        spec_error_from_code(0x806f0009) == Ok::<Error, u32>(Error::MatchmakeReferee(MatchmakeRefereeError::RoundNotArbitrated)),
{
}

/// The wire codes of the Subscriber errors, as the protocol numbers them:
/// category 0x70, each error under its own number; each code reads back
/// as its error.
pub proof fn lemma_subscriber_numbering()
    ensures
        spec_error_code(Error::Subscriber(SubscriberError::Unknown)) == 0x80700001,
        spec_error_from_code(0x80700001) == Ok::<Error, u32>(Error::Subscriber(SubscriberError::Unknown)),
        spec_error_code(Error::Subscriber(SubscriberError::InvalidArgument)) == 0x80700002,
        spec_error_from_code(0x80700002) == Ok::<Error, u32>(Error::Subscriber(SubscriberError::InvalidArgument)),
        spec_error_code(Error::Subscriber(SubscriberError::OverLimit)) == 0x80700003,
        spec_error_from_code(0x80700003) == Ok::<Error, u32>(Error::Subscriber(SubscriberError::OverLimit)),
        spec_error_code(Error::Subscriber(SubscriberError::PermissionDenied)) == 0x80700004,
        spec_error_from_code(0x80700004) == Ok::<Error, u32>(Error::Subscriber(SubscriberError::PermissionDenied)),
{
}

/// The wire codes of the Ranking2 errors, as the protocol numbers them:
/// category 0x71, each error under its own number; each code reads back
/// as its error.
pub proof fn lemma_ranking2_numbering()
    ensures
        spec_error_code(Error::Ranking2(Ranking2Error::Unknown)) == 0x80710001,
        spec_error_from_code(0x80710001) == Ok::<Error, u32>(Error::Ranking2(Ranking2Error::Unknown)),
        spec_error_code(Error::Ranking2(Ranking2Error::InvalidArgument)) == 0x80710002,
        spec_error_from_code(0x80710002) == Ok::<Error, u32>(Error::Ranking2(Ranking2Error::InvalidArgument)),
        spec_error_code(Error::Ranking2(Ranking2Error::InvalidScore)) == 0x80710003,
        spec_error_from_code(0x80710003) == Ok::<Error, u32>(Error::Ranking2(Ranking2Error::InvalidScore)),
{
}

/// The wire codes of the SmartDeviceVoiceChat errors, as the protocol numbers them:
/// category 0x72, each error under its own number; each code reads back
/// as its error.
pub proof fn lemma_smart_device_voice_chat_numbering()
    ensures
        spec_error_code(Error::SmartDeviceVoiceChat(SmartDeviceVoiceChatError::Unknown)) == 0x80720001,
        spec_error_from_code(0x80720001) == Ok::<Error, u32>(Error::SmartDeviceVoiceChat(SmartDeviceVoiceChatError::Unknown)),
        spec_error_code(Error::SmartDeviceVoiceChat(SmartDeviceVoiceChatError::InvalidArgument)) == 0x80720002,
        spec_error_from_code(0x80720002) == Ok::<Error, u32>(Error::SmartDeviceVoiceChat(SmartDeviceVoiceChatError::InvalidArgument)),
        spec_error_code(Error::SmartDeviceVoiceChat(SmartDeviceVoiceChatError::InvalidResponse)) == 0x80720003,
        spec_error_from_code(0x80720003) == Ok::<Error, u32>(Error::SmartDeviceVoiceChat(SmartDeviceVoiceChatError::InvalidResponse)),
        spec_error_code(Error::SmartDeviceVoiceChat(SmartDeviceVoiceChatError::InvalidAccessToken)) == 0x80720004,
        spec_error_from_code(0x80720004) == Ok::<Error, u32>(Error::SmartDeviceVoiceChat(SmartDeviceVoiceChatError::InvalidAccessToken)),
        spec_error_code(Error::SmartDeviceVoiceChat(SmartDeviceVoiceChatError::Unauthorized)) == 0x80720005,
        spec_error_from_code(0x80720005) == Ok::<Error, u32>(Error::SmartDeviceVoiceChat(SmartDeviceVoiceChatError::Unauthorized)),
        spec_error_code(Error::SmartDeviceVoiceChat(SmartDeviceVoiceChatError::AccessError)) == 0x80720006,
        spec_error_from_code(0x80720006) == Ok::<Error, u32>(Error::SmartDeviceVoiceChat(SmartDeviceVoiceChatError::AccessError)),
        spec_error_code(Error::SmartDeviceVoiceChat(SmartDeviceVoiceChatError::UserNotFound)) == 0x80720007,
        spec_error_from_code(0x80720007) == Ok::<Error, u32>(Error::SmartDeviceVoiceChat(SmartDeviceVoiceChatError::UserNotFound)),
        spec_error_code(Error::SmartDeviceVoiceChat(SmartDeviceVoiceChatError::RoomNotFound)) == 0x80720008,
        spec_error_from_code(0x80720008) == Ok::<Error, u32>(Error::SmartDeviceVoiceChat(SmartDeviceVoiceChatError::RoomNotFound)),
        spec_error_code(Error::SmartDeviceVoiceChat(SmartDeviceVoiceChatError::RoomNotActivated)) == 0x80720009,
        spec_error_from_code(0x80720009) == Ok::<Error, u32>(Error::SmartDeviceVoiceChat(SmartDeviceVoiceChatError::RoomNotActivated)),
        spec_error_code(Error::SmartDeviceVoiceChat(SmartDeviceVoiceChatError::ApplicationNotSupported)) == 0x8072000a,
        spec_error_from_code(0x8072000a) == Ok::<Error, u32>(Error::SmartDeviceVoiceChat(SmartDeviceVoiceChatError::ApplicationNotSupported)),
        spec_error_code(Error::SmartDeviceVoiceChat(SmartDeviceVoiceChatError::InternalServerError)) == 0x8072000b,
        spec_error_from_code(0x8072000b) == Ok::<Error, u32>(Error::SmartDeviceVoiceChat(SmartDeviceVoiceChatError::InternalServerError)),
        spec_error_code(Error::SmartDeviceVoiceChat(SmartDeviceVoiceChatError::ServiceUnavailable)) == 0x8072000c,
        spec_error_from_code(0x8072000c) == Ok::<Error, u32>(Error::SmartDeviceVoiceChat(SmartDeviceVoiceChatError::ServiceUnavailable)),
        spec_error_code(Error::SmartDeviceVoiceChat(SmartDeviceVoiceChatError::UnexpectedError)) == 0x8072000d,
        spec_error_from_code(0x8072000d) == Ok::<Error, u32>(Error::SmartDeviceVoiceChat(SmartDeviceVoiceChatError::UnexpectedError)),
        spec_error_code(Error::SmartDeviceVoiceChat(SmartDeviceVoiceChatError::UnderMaintenance)) == 0x8072000e,
        spec_error_from_code(0x8072000e) == Ok::<Error, u32>(Error::SmartDeviceVoiceChat(SmartDeviceVoiceChatError::UnderMaintenance)),
        spec_error_code(Error::SmartDeviceVoiceChat(SmartDeviceVoiceChatError::ServiceNoLongerAvailable)) == 0x8072000f,
        spec_error_from_code(0x8072000f) == Ok::<Error, u32>(Error::SmartDeviceVoiceChat(SmartDeviceVoiceChatError::ServiceNoLongerAvailable)),
        spec_error_code(Error::SmartDeviceVoiceChat(SmartDeviceVoiceChatError::AccountTemporarilyDisabled)) == 0x80720010,
        spec_error_from_code(0x80720010) == Ok::<Error, u32>(Error::SmartDeviceVoiceChat(SmartDeviceVoiceChatError::AccountTemporarilyDisabled)),
        spec_error_code(Error::SmartDeviceVoiceChat(SmartDeviceVoiceChatError::PermissionDenied)) == 0x80720011,
        spec_error_from_code(0x80720011) == Ok::<Error, u32>(Error::SmartDeviceVoiceChat(SmartDeviceVoiceChatError::PermissionDenied)),
        spec_error_code(Error::SmartDeviceVoiceChat(SmartDeviceVoiceChatError::NetworkServiceLicenseRequired)) == 0x80720012,
        spec_error_from_code(0x80720012) == Ok::<Error, u32>(Error::SmartDeviceVoiceChat(SmartDeviceVoiceChatError::NetworkServiceLicenseRequired)),
        spec_error_code(Error::SmartDeviceVoiceChat(SmartDeviceVoiceChatError::AccountLibraryError)) == 0x80720013,
        spec_error_from_code(0x80720013) == Ok::<Error, u32>(Error::SmartDeviceVoiceChat(SmartDeviceVoiceChatError::AccountLibraryError)),
        spec_error_code(Error::SmartDeviceVoiceChat(SmartDeviceVoiceChatError::GameModeNotFound)) == 0x80720014,
        spec_error_from_code(0x80720014) == Ok::<Error, u32>(Error::SmartDeviceVoiceChat(SmartDeviceVoiceChatError::GameModeNotFound)),
{
}

/// The wire codes of the Screening errors, as the protocol numbers them:
/// category 0x73, each error under its own number; each code reads back
/// as its error.
pub proof fn lemma_screening_numbering()
    ensures
        spec_error_code(Error::Screening(ScreeningError::Unknown)) == 0x80730001,
        spec_error_from_code(0x80730001) == Ok::<Error, u32>(Error::Screening(ScreeningError::Unknown)),
        spec_error_code(Error::Screening(ScreeningError::InvalidArgument)) == 0x80730002,
        spec_error_from_code(0x80730002) == Ok::<Error, u32>(Error::Screening(ScreeningError::InvalidArgument)),
        spec_error_code(Error::Screening(ScreeningError::NotFound)) == 0x80730003,
        spec_error_from_code(0x80730003) == Ok::<Error, u32>(Error::Screening(ScreeningError::NotFound)),
{
}

/// The wire codes of the Custom errors, as the protocol numbers them:
/// category 0x74, each error under its own number; each code reads back
/// as its error.
pub proof fn lemma_custom_numbering()
    ensures
        spec_error_code(Error::Custom(CustomError::Unknown)) == 0x80740001,
        spec_error_from_code(0x80740001) == Ok::<Error, u32>(Error::Custom(CustomError::Unknown)),
{
}

/// The wire codes of the Ess errors, as the protocol numbers them:
/// category 0x75, each error under its own number; each code reads back
/// as its error.
pub proof fn lemma_ess_numbering()
    ensures
        spec_error_code(Error::Ess(EssError::Unknown)) == 0x80750001,
        spec_error_from_code(0x80750001) == Ok::<Error, u32>(Error::Ess(EssError::Unknown)),
        spec_error_code(Error::Ess(EssError::GameSessionError)) == 0x80750002,
        spec_error_from_code(0x80750002) == Ok::<Error, u32>(Error::Ess(EssError::GameSessionError)),
        spec_error_code(Error::Ess(EssError::GameSessionMaintenance)) == 0x80750003,
        spec_error_from_code(0x80750003) == Ok::<Error, u32>(Error::Ess(EssError::GameSessionMaintenance)),
{
}

} // verus!
