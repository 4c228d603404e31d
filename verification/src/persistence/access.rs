//! Reading one clip, and counting that it was used.

use crate::blob_store;
use crate::domain::{ClipboardCopy, ClipboardPayload, ImagePayload, PayloadKind};
use crate::persistence::rows::ClipRowView;
use crate::persistence::{Repository, RepositoryError, RepositoryView};
use vstd::prelude::*;

verus! {

/// The clip after it has been copied once more.
pub open spec fn used(row: ClipRowView, now: i64) -> ClipRowView {
    ClipRowView {
        last_copied_at: now,
        copy_count: (row.copy_count + 1) as i64,
        sort_key: (row.sort_key + 1) as i64,
        ..row
    }
}

impl RepositoryView {
    /// The text of a clip, or why there is none.
    pub open spec fn text_of_clip(self, id: Seq<char>) -> Result<Seq<char>, RepositoryError> {
        let at = self.clip_position(id);
        if at >= self.clips.len() {
            Err(RepositoryError::ClipNotFound)
        } else if self.clips[at].payload_kind is Image {
            Err(RepositoryError::NotText)
        } else {
            Ok(self.clips[at].content)
        }
    }

    /// The path and media type of a clip's image file; `None` if it has none.
    pub open spec fn file_of_clip(self, id: Seq<char>) -> Option<(Seq<char>, Seq<char>)> {
        let at = self.clip_position(id);
        let row = self.clips[at];
        if at < self.clips.len() && row.payload_kind is Image && row.blob_hash is Some
            && self.blob_position(row.blob_hash->0) < self.blobs.len() {
            let blob = self.blobs[self.blob_position(row.blob_hash->0)];
            Some((blob.relative_path, blob.mime_type))
        } else {
            None
        }
    }

    /// The history after a clip has been copied once more, or why it was not.
    pub open spec fn copied(self, id: Seq<char>, now: i64) -> Result<
        RepositoryView,
        RepositoryError,
    > {
        let at = self.clip_position(id);
        if at >= self.clips.len() {
            Err(RepositoryError::ClipNotFound)
        } else if self.clips[at].copy_count == i64::MAX || self.clips[at].sort_key == i64::MAX {
            Err(RepositoryError::CounterOverflow)
        } else {
            Ok(self.with_clip(at, used(self.clips[at], now)))
        }
    }

    /// With a clip pinned or not; nothing changes if there is none.
    pub open spec fn with_pin(self, id: Seq<char>, pinned: bool) -> RepositoryView {
        let at = self.clip_position(id);
        if at < self.clips.len() {
            self.with_clip(at, ClipRowView { pinned, ..self.clips[at] })
        } else {
            self
        }
    }
}

impl Repository {
    /// The text of a clip.
    pub fn get_clip_content(&self, id: &str) -> (result: Result<String, RepositoryError>)
        ensures
            match self@.text_of_clip(id@) {
                Ok(content) => result matches Ok(found) && found@ == content,
                Err(error) => result == Err::<String, RepositoryError>(error),
            },
    {
        let at = self.find_clip(id);
        if at >= self.clips.len() {
            return Err(RepositoryError::ClipNotFound);
        }
        let row = &self.clips[at];
        proof {
            assert(self@.clips[at as int] == row@);
        }
        match row.payload_kind {
            PayloadKind::Image => Err(RepositoryError::NotText),
            PayloadKind::Text => Ok(row.content.clone()),
        }
    }

    /// The path and media type of a clip's image file.
    fn find_file(&self, id: &str) -> (file: Option<(String, String)>)
        ensures
            match file {
                Some((path, mime)) => self@.file_of_clip(id@) == Some((path@, mime@)),
                None => self@.file_of_clip(id@) is None,
            },
    {
        let at = self.find_clip(id);
        if at >= self.clips.len() {
            return None;
        }
        let row = &self.clips[at];
        proof {
            assert(self@.clips[at as int] == row@);
        }
        if matches!(row.payload_kind, PayloadKind::Text) {
            return None;
        }
        let hash = match &row.blob_hash {
            Some(hash) => hash,
            None => return None,
        };
        let found = self.find_blob(hash.as_str());
        if found >= self.blobs.len() {
            return None;
        }
        proof {
            assert(self@.blobs[found as int] == self.blobs@[found as int]@);
        }
        Some((self.blobs[found].relative_path.clone(), self.blobs[found].mime_type.clone()))
    }

    /// What is put on the clipboard for a clip: its text, or its image, which `load` fetches from
    /// a path within the store.
    pub fn get_clip_for_copy<F: FnOnce(&str) -> Result<ImagePayload, RepositoryError>>(
        &self,
        id: &str,
        load: F,
    ) -> (result: Result<ClipboardCopy, RepositoryError>)
        requires
            forall|path: &str| #[trigger] call_requires(load, (path,)),
        ensures
            copy_fetched(self@, id@, load, result),
    {
        let at = self.find_clip(id);
        if at >= self.clips.len() {
            return Err(RepositoryError::ClipNotFound);
        }
        proof {
            assert(self@.clips[at as int] == self.clips@[at as int]@);
        }
        let payload = match self.clips[at].payload_kind {
            PayloadKind::Text => ClipboardPayload::Text(self.clips[at].content.clone()),
            PayloadKind::Image => {
                if self.blob_store.is_none() {
                    return Err(RepositoryError::BlobStoreUnavailable);
                }
                let path = match self.find_file(id) {
                    Some((path, _)) => path,
                    None => return Err(RepositoryError::MissingBlob),
                };
                match load(path.as_str()) {
                    Ok(image) => ClipboardPayload::Image(image),
                    Err(error) => return Err(error),
                }
            },
        };
        let fingerprint = payload.fingerprint();
        Ok(ClipboardCopy { payload, fingerprint })
    }

    /// The path within the store and the media type of a clip's image file.
    pub fn image_file(&self, id: &str) -> (result: Result<(String, String), RepositoryError>)
        ensures
            match self@.file_of_clip(id@) {
                Some((path, mime)) => if self@.blob_root is Some {
                    result matches Ok((found, mime_type)) && found@ == path && mime_type@ == mime
                } else {
                    result == Err::<(String, String), RepositoryError>(
                        RepositoryError::BlobStoreUnavailable,
                    )
                },
                None => result == Err::<(String, String), RepositoryError>(
                    RepositoryError::ClipNotFound,
                ),
            },
    {
        match self.find_file(id) {
            Some(file) => if self.blob_store.is_some() {
                Ok(file)
            } else {
                Err(RepositoryError::BlobStoreUnavailable)
            },
            None => Err(RepositoryError::ClipNotFound),
        }
    }

    /// The image of a clip as a data URL; `read` fetches the file from its absolute path.
    pub fn get_image_data_url<F: FnOnce(&str) -> Option<Vec<u8>>>(&self, id: &str, read: F) -> (result:
        Result<String, RepositoryError>)
        requires
            forall|path: &str| #[trigger] call_requires(read, (path,)),
        ensures
            data_url_fetched(self@, id@, read, result),
    {
        let (path, mime) = match self.find_file(id) {
            Some(file) => file,
            None => return Err(RepositoryError::ClipNotFound),
        };
        match &self.blob_store {
            Some(store) => store.read_data_url(path.as_str(), mime.as_str(), read),
            None => Err(RepositoryError::BlobStoreUnavailable),
        }
    }

    /// Where the image file of a clip lies.
    pub fn image_file_path(&self, id: &str) -> (result: Result<String, RepositoryError>)
        ensures
            match self@.file_of_clip(id@) {
                Some((path, _)) => if self@.blob_root is None {
                    result == Err::<String, RepositoryError>(RepositoryError::BlobStoreUnavailable)
                } else if blob_store::is_safe_relative(path) {
                    result matches Ok(found) && found@ == blob_store::joined(
                        self@.blob_root->0,
                        path,
                    )
                } else {
                    result == Err::<String, RepositoryError>(RepositoryError::UnsafePath)
                },
                None => result == Err::<String, RepositoryError>(RepositoryError::ClipNotFound),
            },
    {
        let (path, _) = match self.find_file(id) {
            Some(file) => file,
            None => return Err(RepositoryError::ClipNotFound),
        };
        match &self.blob_store {
            Some(store) => store.absolute_path(path.as_str()),
            None => Err(RepositoryError::BlobStoreUnavailable),
        }
    }

    /// Counts that a clip has been put on the clipboard. To be called once that has succeeded.
    pub fn mark_clip_copied(&mut self, id: &str, now: i64) -> (result: Result<(), RepositoryError>)
        requires
            old(self)@.wf(),
        ensures
            match old(self)@.copied(id@, now) {
                Ok(next) => result is Ok && final(self)@ == next,
                Err(error) => result == Err::<(), RepositoryError>(error) && final(self)@ == old(
                    self,
                )@,
            },
            final(self)@.wf(),
    {
        let at = self.find_clip(id);
        if at >= self.clips.len() {
            return Err(RepositoryError::ClipNotFound);
        }
        proof {
            assert(self@.clips[at as int] == self.clips@[at as int]@);
            assert(self@.clips[at as int].copy_count >= 1);
        }
        if self.clips[at].copy_count == i64::MAX || self.clips[at].sort_key == i64::MAX {
            return Err(RepositoryError::CounterOverflow);
        }
        let mut row = self.clips[at].clone();
        row.last_copied_at = now;
        row.copy_count = row.copy_count + 1;
        row.sort_key = row.sort_key + 1;
        proof {
            super::attach::lemma_others_differ(self@, at as int);
        }
        self.set_clip(at, row);
        Ok(())
    }

    /// Counts that a clip has been put on the clipboard, and returns its content.
    pub fn touch_clip(&mut self, id: &str, now: i64) -> (result: Result<String, RepositoryError>)
        requires
            old(self)@.wf(),
        ensures
            match old(self)@.copied(id@, now) {
                Ok(next) => final(self)@ == next && (result matches Ok(content) && content@
                    == next.clips[next.clip_position(id@)].content),
                Err(error) => result == Err::<String, RepositoryError>(error) && final(self)@
                    == old(self)@,
            },
            final(self)@.wf(),
    {
        match self.mark_clip_copied(id, now) {
            Ok(()) => {},
            Err(error) => return Err(error),
        }
        let at = self.find_clip(id);
        proof {
            lemma_copied_is_there(old(self)@, id@, now);
            assert(self@.clips[at as int] == self.clips@[at as int]@);
        }
        Ok(self.clips[at].content.clone())
    }

    /// Pins a clip or unpins it; there may be none.
    pub fn set_pinned(&mut self, id: &str, pinned: bool)
        requires
            old(self)@.wf(),
        ensures
            final(self)@ == old(self)@.with_pin(id@, pinned),
            final(self)@.wf(),
    {
        let at = self.find_clip(id);
        if at < self.clips.len() {
            let mut row = self.clips[at].clone();
            proof {
                assert(self@.clips[at as int] == row@);
                assert(self@.clips[at as int].copy_count >= 1);
                super::attach::lemma_others_differ(self@, at as int);
            }
            row.pinned = pinned;
            self.set_clip(at, row);
        }
    }
}

/// What fetching a clip for the clipboard returns.
pub open spec fn copy_fetched<F: FnOnce(&str) -> Result<ImagePayload, RepositoryError>>(
    repository: RepositoryView,
    id: Seq<char>,
    load: F,
    result: Result<ClipboardCopy, RepositoryError>,
) -> bool {
    let at = repository.clip_position(id);
    if at >= repository.clips.len() {
        result == Err::<ClipboardCopy, RepositoryError>(RepositoryError::ClipNotFound)
    } else if repository.clips[at].payload_kind is Text {
        result matches Ok(copy) && copy.fingerprint@ == copy.payload.fingerprint_text() && (
        copy.payload matches ClipboardPayload::Text(content) && content@
            == repository.clips[at].content)
    } else if repository.blob_root is None {
        result == Err::<ClipboardCopy, RepositoryError>(RepositoryError::BlobStoreUnavailable)
    } else {
        match repository.file_of_clip(id) {
            None => result == Err::<ClipboardCopy, RepositoryError>(RepositoryError::MissingBlob),
            Some((relative, _)) => exists|path: &str, image: Result<ImagePayload, RepositoryError>|
                {
                    &&& path@ == relative
                    &&& #[trigger] call_ensures(load, (path,), image)
                    &&& match image {
                        Ok(image) => result matches Ok(copy) && copy.fingerprint@
                            == copy.payload.fingerprint_text() && copy.payload
                            == ClipboardPayload::Image(image),
                        Err(error) => result == Err::<ClipboardCopy, RepositoryError>(error),
                    }
                },
        }
    }
}

/// What fetching the image of a clip as a data URL returns.
pub open spec fn data_url_fetched<F: FnOnce(&str) -> Option<Vec<u8>>>(
    repository: RepositoryView,
    id: Seq<char>,
    read: F,
    result: Result<String, RepositoryError>,
) -> bool {
    match repository.file_of_clip(id) {
        None => result == Err::<String, RepositoryError>(RepositoryError::ClipNotFound),
        Some((relative, mime)) => if repository.blob_root is None {
            result == Err::<String, RepositoryError>(RepositoryError::BlobStoreUnavailable)
        } else if !blob_store::is_safe_relative(relative) {
            result == Err::<String, RepositoryError>(RepositoryError::UnsafePath)
        } else {
            exists|path: &str, file: Option<Vec<u8>>|
                {
                    &&& path@ == blob_store::joined(repository.blob_root->0, relative)
                    &&& #[trigger] call_ensures(read, (path,), file)
                    &&& match file {
                        Some(file) => match blob_store::data_url(mime, file@) {
                            Ok(url) => result matches Ok(found) && found@ == url,
                            Err(error) => result == Err::<String, RepositoryError>(error),
                        },
                        None => result == Err::<String, RepositoryError>(
                            RepositoryError::BlobUnreadable,
                        ),
                    }
                }
        },
    }
}

/// A clip that has been copied once more is where it was.
proof fn lemma_copied_is_there(repository: RepositoryView, id: Seq<char>, now: i64)
    requires
        repository.copied(id, now) is Ok,
    ensures
        (repository.copied(id, now)->Ok_0).clip_position(id) == repository.clip_position(id),
        0 <= repository.clip_position(id) < repository.clips.len(),
{
    let wanted = |row: ClipRowView| row.id == id;
    crate::sequences::lemma_first_index(repository.clips, wanted);
    let at = repository.clip_position(id);
    let next = repository.copied(id, now)->Ok_0;
    assert forall|k: int| 0 <= k < at implies !wanted(#[trigger] next.clips[k]) by {
        assert(!wanted(repository.clips[k]));
    }
    crate::sequences::lemma_is_first_index(next.clips, wanted, at);
}

/// Pinning changes only whether the clip is pinned, and the last word counts.
pub proof fn last_pin_counts(repository: RepositoryView, id: Seq<char>, first: bool, second: bool)
    ensures
        repository.with_pin(id, first).with_pin(id, second) == repository.with_pin(id, second),
{
    let wanted = |row: ClipRowView| row.id == id;
    crate::sequences::lemma_first_index(repository.clips, wanted);
    let at = repository.clip_position(id);
    let next = repository.with_pin(id, first);
    assert forall|k: int| 0 <= k < at implies !wanted(#[trigger] next.clips[k]) by {
        assert(!wanted(repository.clips[k]));
    }
    crate::sequences::lemma_is_first_index(next.clips, wanted, at);
    if at < repository.clips.len() {
        assert(next.with_pin(id, second) =~= repository.with_pin(id, second));
    }
}

} // verus!
