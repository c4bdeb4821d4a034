//! Adding a statement document, step by step: the caller performs each
//! action (file and database work) and reports its outcome; this machine
//! decides what comes next. The order it imposes is what keeps the store
//! sound: the document is placed under its digest only when no stored file
//! has that digest, it is recorded only once placed, and a failed record
//! removes the placed file again.

use vstd::prelude::*;
use crate::records::{Statement, StatementWriteError};
use crate::user_data::{
    check_file_size, insert_failure, insert_failure_spec, is_sha256_hex_of, path_join, stored_name, AddStatementError, ContentHasher, UserDataError,
    UserDataManager, TEMP_FILE_PREFIX,
};

verus! {

/// What the caller reports back.
pub enum IngestEvent {
    /// The directories exist and the database is open (or could not be).
    StoreReady(Result<(), UserDataError>),
    /// The source document was opened for reading (or not).
    SourceOpened(Result<(), std::io::Error>),
    /// The temporary file was created (or not).
    TempCreated(Result<(), std::io::Error>),
    /// The document was streamed into the temporary file: the hasher that
    /// took its bytes and the temporary file's size, or the step's error.
    Copied(Result<(ContentHasher, u64), AddStatementError>),
    /// The path of a stored file with the digest, if there is one.
    Existing(Option<String>),
    /// The temporary file was removed, or its removal failed; either way.
    TempDiscarded,
    /// The temporary file was renamed to its final path (or not).
    Placed(Result<(), std::io::Error>),
    /// The statement row was inserted (or not).
    Recorded(Result<Statement, StatementWriteError>),
    /// The placed file was removed (or not).
    PlacedRemoved(Result<(), std::io::Error>),
}

/// What the caller does next.
#[derive(Debug)]
pub enum IngestAction {
    /// Create the data and statements directories and open the database.
    PrepareStore,
    /// Open the source document.
    OpenSource,
    /// Create the temporary file at this path.
    CreateTemp { temp_path: String },
    /// Stream the source into the temporary file while hashing it, then
    /// read the temporary file's size.
    Copy,
    /// Look for a stored file named by this digest or with it as stem.
    LookUp { file_hash: String },
    /// Remove the temporary file; its outcome does not matter.
    DiscardTemp { temp_path: String },
    /// Rename the temporary file to its final path.
    Place { temp_path: String, final_path: String },
    /// Insert the statement row for the placed document.
    Record { file_hash: String, file_size: i64 },
    /// Remove the placed file, undoing the placement.
    RemovePlaced { final_path: String },
    /// Stop, with this result.
    Finish(Result<Statement, AddStatementError>),
}

/// Where an ingestion stands.
#[derive(Debug)]
pub enum IngestStage {
    Preparing,
    Opening,
    Creating,
    Copying,
    LookingUp { file_hash: String, file_size: i64, final_path: String },
    Discarding { file_hash: String, existing: String },
    Placing { file_hash: String, file_size: i64, final_path: String },
    Recording { final_path: String },
    Removing { final_path: String, insert_error: StatementWriteError },
    Done,
}

/// One document being added to the store.
pub struct Ingest {
    store: UserDataManager,
    source_path: String,
    temp_path: String,
    stage: IngestStage,
}

impl Ingest {
    pub closed spec fn stage(&self) -> IngestStage {
        self.stage
    }

    pub closed spec fn temp_path(&self) -> Seq<char> {
        self.temp_path@
    }

    pub closed spec fn source_path(&self) -> Seq<char> {
        self.source_path@
    }

    pub closed spec fn statements_dir(&self) -> Seq<char> {
        self.store.statements_dir_text()
    }

    /// Starts adding the document at `source_path` to the store of
    /// `manager`; `token` makes the temporary file's name unique. The first
    /// action prepares the store.
    pub fn start(manager: &UserDataManager, source_path: &str, token: &str) -> (r: (Ingest, IngestAction))
        ensures
            r.0.stage() is Preparing,
            r.1 is PrepareStore,
            r.0.source_path() == source_path@,
            r.0.statements_dir() == manager.statements_dir_text(),
            r.0.temp_path() == path_join(manager.statements_dir_text(), TEMP_FILE_PREFIX@ + token@),
    {
        let store = UserDataManager::from_data_dir(manager.data_dir());
        let temp_path = manager.temp_file_path(token);
        (
            Ingest { store, source_path: source_path.to_owned(), temp_path, stage: IngestStage::Preparing },
            IngestAction::PrepareStore,
        )
    }

    /// Takes the outcome of the last action and gives the next one. An
    /// event that does not answer the pending action leaves the stage as it
    /// was and is answered with the out-of-order error.
    pub fn next(&mut self, event: IngestEvent) -> (r: IngestAction)
        ensures
            final(self).temp_path() == old(self).temp_path(),
            final(self).source_path() == old(self).source_path(),
            final(self).statements_dir() == old(self).statements_dir(),
            // Only a placed document is recorded; only a document with no
            // stored file of the same digest is placed.
            r is Record ==> old(self).stage() is Placing && event matches IngestEvent::Placed(Ok(_)),
            r is Place ==> old(self).stage() is LookingUp && event matches IngestEvent::Existing(None),
            match (old(self).stage(), event) {
                (IngestStage::Preparing, IngestEvent::StoreReady(Err(e))) =>
                    r == IngestAction::Finish(Err(AddStatementError::PrepareUserData(e))) && final(self).stage() is Done,
                (IngestStage::Preparing, IngestEvent::StoreReady(Ok(_))) =>
                    r is OpenSource && final(self).stage() is Opening,
                (IngestStage::Opening, IngestEvent::SourceOpened(Err(e))) =>
                    r == IngestAction::Finish(Err(AddStatementError::OpenSource(e))) && final(self).stage() is Done,
                (IngestStage::Opening, IngestEvent::SourceOpened(Ok(_))) =>
                    r matches IngestAction::CreateTemp { temp_path } && temp_path@ == old(self).temp_path()
                        && final(self).stage() is Creating,
                (IngestStage::Creating, IngestEvent::TempCreated(Err(e))) =>
                    r == IngestAction::Finish(Err(AddStatementError::CreateTempFile(e))) && final(self).stage() is Done,
                (IngestStage::Creating, IngestEvent::TempCreated(Ok(_))) =>
                    r is Copy && final(self).stage() is Copying,
                (IngestStage::Copying, IngestEvent::Copied(Err(e))) =>
                    r == IngestAction::Finish(Err(e)) && final(self).stage() is Done,
                // A copy too large for the size field is refused; otherwise
                // its SHA-256 digest is looked up, with its final path fixed.
                (IngestStage::Copying, IngestEvent::Copied(Ok((hasher, len)))) =>
                    if len > i64::MAX as u64 {
                        r == IngestAction::Finish(Err(AddStatementError::FileTooLarge(len))) && final(self).stage() is Done
                    } else {
                        r matches IngestAction::LookUp { file_hash } && is_sha256_hex_of(file_hash@, hasher.fed())
                            && (final(self).stage() matches IngestStage::LookingUp { file_hash: fh, file_size, final_path }
                            && fh@ == file_hash@ && file_size as int == len as int
                            && final_path@ == path_join(old(self).statements_dir(), stored_name(fh@, old(self).source_path())))
                    },
                // A stored file with the digest: the copy is discarded, never
                // placed, and the ingestion ends as a duplicate.
                (IngestStage::LookingUp { file_hash: h, .. }, IngestEvent::Existing(Some(p))) =>
                    r matches IngestAction::DiscardTemp { temp_path } && temp_path@ == old(self).temp_path()
                        && final(self).stage() == (IngestStage::Discarding { file_hash: h, existing: p }),
                (IngestStage::Discarding { file_hash: h, existing: p }, IngestEvent::TempDiscarded) =>
                    r == IngestAction::Finish(Err(AddStatementError::DuplicateFileHash { hash: h, path: p }))
                        && final(self).stage() is Done,
                (IngestStage::LookingUp { file_hash: h, file_size: z, final_path: f }, IngestEvent::Existing(None)) =>
                    r matches IngestAction::Place { temp_path, final_path } && temp_path@ == old(self).temp_path()
                        && final_path@ == f@
                        && final(self).stage() == (IngestStage::Placing { file_hash: h, file_size: z, final_path: f }),
                (IngestStage::Placing { .. }, IngestEvent::Placed(Err(e))) =>
                    r == IngestAction::Finish(Err(AddStatementError::RenameToFinal(e))) && final(self).stage() is Done,
                (IngestStage::Placing { file_hash: h, file_size: z, final_path: f }, IngestEvent::Placed(Ok(_))) =>
                    r == (IngestAction::Record { file_hash: h, file_size: z })
                        && final(self).stage() == (IngestStage::Recording { final_path: f }),
                (IngestStage::Recording { .. }, IngestEvent::Recorded(Ok(st))) =>
                    r == IngestAction::Finish(Ok(st)) && final(self).stage() is Done,
                // A failed record removes the placed file, then reports how
                // that went.
                (IngestStage::Recording { final_path: f }, IngestEvent::Recorded(Err(e))) =>
                    r matches IngestAction::RemovePlaced { final_path } && final_path@ == f@
                        && final(self).stage() == (IngestStage::Removing { final_path: f, insert_error: e }),
                (IngestStage::Removing { final_path: f, insert_error: e }, IngestEvent::PlacedRemoved(c)) =>
                    r == IngestAction::Finish(Err(insert_failure_spec(e, c, f))) && final(self).stage() is Done,
                (other, _) => r == IngestAction::Finish(Err(AddStatementError::OutOfOrder)) && final(self).stage() == other,
            },
    {
        let mut stage = IngestStage::Done;
        core::mem::swap(&mut stage, &mut self.stage);
        match (stage, event) {
            (IngestStage::Preparing, IngestEvent::StoreReady(Err(e))) => {
                IngestAction::Finish(Err(AddStatementError::PrepareUserData(e)))
            },
            (IngestStage::Preparing, IngestEvent::StoreReady(Ok(()))) => {
                self.stage = IngestStage::Opening;
                IngestAction::OpenSource
            },
            (IngestStage::Opening, IngestEvent::SourceOpened(Err(e))) => {
                IngestAction::Finish(Err(AddStatementError::OpenSource(e)))
            },
            (IngestStage::Opening, IngestEvent::SourceOpened(Ok(()))) => {
                self.stage = IngestStage::Creating;
                IngestAction::CreateTemp { temp_path: self.temp_path.clone() }
            },
            (IngestStage::Creating, IngestEvent::TempCreated(Err(e))) => {
                IngestAction::Finish(Err(AddStatementError::CreateTempFile(e)))
            },
            (IngestStage::Creating, IngestEvent::TempCreated(Ok(()))) => {
                self.stage = IngestStage::Copying;
                IngestAction::Copy
            },
            (IngestStage::Copying, IngestEvent::Copied(Err(e))) => IngestAction::Finish(Err(e)),
            (IngestStage::Copying, IngestEvent::Copied(Ok((hasher, len)))) => {
                match check_file_size(len) {
                    Err(e) => IngestAction::Finish(Err(e)),
                    Ok(file_size) => {
                        let file_hash = hasher.finish_hex();
                        let final_path = self.store.statement_file_path_for_source(
                            file_hash.as_str(),
                            self.source_path.as_str(),
                        );
                        let look = file_hash.clone();
                        self.stage = IngestStage::LookingUp { file_hash, file_size, final_path };
                        IngestAction::LookUp { file_hash: look }
                    },
                }
            },
            (IngestStage::LookingUp { file_hash, file_size, final_path }, IngestEvent::Existing(found)) => {
                match found {
                    Some(existing) => {
                        self.stage = IngestStage::Discarding { file_hash, existing };
                        IngestAction::DiscardTemp { temp_path: self.temp_path.clone() }
                    },
                    None => {
                        let place = final_path.clone();
                        self.stage = IngestStage::Placing { file_hash, file_size, final_path };
                        IngestAction::Place { temp_path: self.temp_path.clone(), final_path: place }
                    },
                }
            },
            (IngestStage::Discarding { file_hash, existing }, IngestEvent::TempDiscarded) => {
                IngestAction::Finish(Err(AddStatementError::DuplicateFileHash { hash: file_hash, path: existing }))
            },
            (IngestStage::Placing { file_hash, file_size, final_path }, IngestEvent::Placed(placed)) => {
                match placed {
                    Err(e) => IngestAction::Finish(Err(AddStatementError::RenameToFinal(e))),
                    Ok(()) => {
                        self.stage = IngestStage::Recording { final_path };
                        IngestAction::Record { file_hash, file_size }
                    },
                }
            },
            (IngestStage::Recording { final_path }, IngestEvent::Recorded(recorded)) => {
                match recorded {
                    Ok(s) => IngestAction::Finish(Ok(s)),
                    Err(insert_error) => {
                        let remove = final_path.clone();
                        self.stage = IngestStage::Removing { final_path, insert_error };
                        IngestAction::RemovePlaced { final_path: remove }
                    },
                }
            },
            (IngestStage::Removing { final_path, insert_error }, IngestEvent::PlacedRemoved(cleanup)) => {
                IngestAction::Finish(Err(insert_failure(insert_error, cleanup, final_path)))
            },
            (other, _) => {
                self.stage = other;
                IngestAction::Finish(Err(AddStatementError::OutOfOrder))
            },
        }
    }
}

} // verus!
