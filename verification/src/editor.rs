//! The editor's record of the files it tracks: what was last saved of each,
//! and which of them hold changes that are not saved.
//!
//! A file is saved only where the bytes it is written as have another hash
//! than what was last saved or loaded, so that a change of formatting that
//! writes the same bytes touches no file.
use vstd::prelude::*;
use vstd::utf8::encode_utf8;
use crate::document::{document_text, Caf, DocumentModel};
use crate::json::same_text;
use crate::typed::{NameShortcuts, Shortcut};

verus! {

/// The hash of the bytes of a file.
#[derive(Debug, Clone, Copy, PartialEq, Eq, Structural)]
pub struct CobFileHash(pub u64);

/// One step of the hash: the byte is mixed in and the result multiplied.
pub open spec fn hash_step(hash: u64, byte: u8) -> u64 {
    (((hash ^ (byte as u64)) as int * 0x100_0000_01b3) % 0x1_0000_0000_0000_0000) as u64
}

/// The hash of `bytes`: 64-bit FNV-1a.
pub open spec fn hash_of(bytes: Seq<u8>) -> u64
    decreases bytes.len(),
{
    if bytes.len() == 0 {
        0xcbf2_9ce4_8422_2325
    } else {
        hash_step(hash_of(bytes.drop_last()), bytes.last())
    }
}

impl CobFileHash {
    /// Hashes the bytes of a file.
    pub fn new(bytes: &[u8]) -> (r: Self)
        ensures
            r.0 == hash_of(bytes@),
    {
        let mut hash: u64 = 0xcbf2_9ce4_8422_2325;
        let mut i: usize = 0;
        proof {
            assert(bytes@.subrange(0, 0) =~= Seq::<u8>::empty());
        }
        while i < bytes.len()
            invariant
                0 <= i <= bytes@.len(),
                hash == hash_of(bytes@.subrange(0, i as int)),
            decreases bytes@.len() - i,
        {
            let mixed: u64 = hash ^ (bytes[i] as u64);
            proof {
                let next = bytes@.subrange(0, i + 1);
                assert(next.drop_last() =~= bytes@.subrange(0, i as int));
                assert(next.last() == bytes@[i as int]);
                assert(mixed as int * 0x100_0000_01b3 < 0x1_0000_0000_0000_0000 * 0x100_0000_01b3)
                    by (nonlinear_arith)
                    requires
                        0 <= mixed < 0x1_0000_0000_0000_0000,
                ;
            }
            let wide: u128 = (mixed as u128) * 0x100_0000_01b3;
            hash = (wide % 0x1_0000_0000_0000_0000) as u64;
            i += 1;
        }
        proof {
            assert(bytes@.subrange(0, bytes@.len() as int) =~= bytes@);
        }
        CobFileHash(hash)
    }
}

/// What the editor holds of one file.
#[derive(Debug, Clone, PartialEq)]
pub struct CobFileData {
    pub file: String,
    pub last_save_hash: CobFileHash,
    /// Data for the file.
    pub data: Caf,
    /// The long names that the file declares for short names.
    pub using: NameShortcuts,
}

/// The model of a [`CobFileData`].
pub struct FileModel {
    pub file: Seq<u8>,
    pub last_save_hash: CobFileHash,
    pub data: DocumentModel,
    pub using: Seq<Shortcut>,
}

impl View for CobFileData {
    type V = FileModel;

    open spec fn view(&self) -> FileModel {
        FileModel {
            file: encode_utf8(self.file@),
            last_save_hash: self.last_save_hash,
            data: self.data@,
            using: self.using.entries@,
        }
    }
}

/// Whether `needle` stands in `s` at some offset at or after `from`.
pub open spec fn contains_from(s: Seq<u8>, needle: Seq<u8>, from: int) -> bool
    decreases s.len() - from,
{
    if from < 0 || from >= s.len() || from + needle.len() > s.len() {
        false
    } else if s.subrange(from, from + needle.len()) == needle {
        true
    } else {
        contains_from(s, needle, from + 1)
    }
}

/// The bytes of `://`, which sets an asset source off from a path.
pub open spec fn source_mark() -> Seq<u8> {
    seq![58u8, 47, 47]
}

impl CobFileData {
    /// Whether the file can be saved: a file of another asset source than
    /// the default cannot.
    pub fn is_editable(&self) -> (r: bool)
        ensures
            r == !contains_from(self@.file, source_mark(), 0),
    {
        let name = self.file.as_str().as_bytes();
        let mark = vec![58u8, 47, 47];
        assert(mark@ == source_mark());
        let mut i: usize = 0;
        while i < name.len() && name.len() - i >= 3
            invariant
                0 <= i,
                mark@ == source_mark(),
                name@ == self@.file,
                contains_from(name@, source_mark(), 0) == contains_from(
                    name@,
                    source_mark(),
                    i as int,
                ),
            decreases name@.len() - i,
        {
            if crate::bytes::starts_at(name, i, mark.as_slice()) {
                return false;
            }
            i += 1;
        }
        true
    }
}

/// What the editor tells its views.
#[derive(Debug, Clone, PartialEq, Eq)]
pub enum EditorEvent {
    /// A file is tracked for the first time.
    NewFile { file: String },
    /// A tracked file was loaded again.
    FileExternalChange { file: String },
    /// A file now holds, or no longer holds, changes that are not saved.
    SaveStatus { file: String, unsaved: bool },
}

/// The model of an [`EditorEvent`].
pub enum EventModel {
    NewFile { file: Seq<u8> },
    FileExternalChange { file: Seq<u8> },
    SaveStatus { file: Seq<u8>, unsaved: bool },
}

impl View for EditorEvent {
    type V = EventModel;

    open spec fn view(&self) -> EventModel {
        match self {
            EditorEvent::NewFile { file } => EventModel::NewFile { file: encode_utf8(file@) },
            EditorEvent::FileExternalChange { file } => EventModel::FileExternalChange {
                file: encode_utf8(file@),
            },
            EditorEvent::SaveStatus { file, unsaved } => EventModel::SaveStatus {
                file: encode_utf8(file@),
                unsaved: *unsaved,
            },
        }
    }
}

/// A file that has to be written: its name, its bytes, and the hashes of
/// what was last saved and of what is to be saved.
#[derive(Debug, Clone, PartialEq, Eq)]
pub struct SaveJob {
    pub file: String,
    pub bytes: Vec<u8>,
    pub old_hash: CobFileHash,
    pub new_hash: CobFileHash,
}

/// The model of a [`SaveJob`].
pub struct JobModel {
    pub file: Seq<u8>,
    pub bytes: Seq<u8>,
    pub old_hash: CobFileHash,
    pub new_hash: CobFileHash,
}

impl View for SaveJob {
    type V = JobModel;

    open spec fn view(&self) -> JobModel {
        JobModel {
            file: encode_utf8(self.file@),
            bytes: self.bytes@,
            old_hash: self.old_hash,
            new_hash: self.new_hash,
        }
    }
}

/// The files that the editor tracks.
pub struct CobEditor {
    /// All files tracked by the editor.
    pub files: Vec<CobFileData>,
    /// Files waiting to be saved, each once.
    pub unsaved: Vec<String>,
    /// Whether there is a directory to save files to.
    pub can_save: bool,
}

/// The model of a [`CobEditor`].
pub struct EditorModel {
    pub files: Seq<FileModel>,
    pub unsaved: Seq<Seq<u8>>,
    pub can_save: bool,
}

pub open spec fn files_view(files: Seq<CobFileData>) -> Seq<FileModel> {
    files.map_values(|file: CobFileData| file@)
}

pub open spec fn names_view(names: Seq<String>) -> Seq<Seq<u8>> {
    names.map_values(|name: String| encode_utf8(name@))
}

impl View for CobEditor {
    type V = EditorModel;

    open spec fn view(&self) -> EditorModel {
        EditorModel {
            files: files_view(self.files@),
            unsaved: names_view(self.unsaved@),
            can_save: self.can_save,
        }
    }
}

/// The index of the first file at or after `from` with the name `name`.
pub open spec fn file_index(files: Seq<FileModel>, name: Seq<u8>, from: int) -> Option<int>
    decreases files.len() - from,
{
    if from < 0 || from >= files.len() {
        None
    } else if files[from].file == name {
        Some(from)
    } else {
        file_index(files, name, from + 1)
    }
}

/// The index of the first name at or after `from` that is `name`.
pub open spec fn name_index(names: Seq<Seq<u8>>, name: Seq<u8>, from: int) -> Option<int>
    decreases names.len() - from,
{
    if from < 0 || from >= names.len() {
        None
    } else if names[from] == name {
        Some(from)
    } else {
        name_index(names, name, from + 1)
    }
}

/// The editor after a file was loaded, and what it tells its views. A file
/// that is new is tracked. A file that is tracked takes the new `using`,
/// is no longer unsaved, and takes the new data where it was unsaved or
/// the hash differs from what was last saved.
pub open spec fn after_processed(
    e: EditorModel,
    hash: CobFileHash,
    file: Seq<u8>,
    data: DocumentModel,
    using: Seq<Shortcut>,
) -> (EditorModel, Seq<EventModel>) {
    match file_index(e.files, file, 0) {
        None => (
            EditorModel {
                files: e.files.push(FileModel { file, last_save_hash: hash, data, using }),
                ..e
            },
            seq![EventModel::NewFile { file }],
        ),
        Some(i) => {
            let removed = name_index(e.unsaved, file, 0);
            let unsaved = match removed {
                Some(at) => e.unsaved.remove(at),
                None => e.unsaved,
            };
            let kept = FileModel { using, ..e.files[i] };
            let entry = if removed is None && kept.last_save_hash == hash {
                kept
            } else {
                FileModel { last_save_hash: hash, data, ..kept }
            };
            let events = if removed is Some {
                seq![
                    EventModel::FileExternalChange { file },
                    EventModel::SaveStatus { file, unsaved: false },
                ]
            } else {
                seq![EventModel::FileExternalChange { file }]
            };
            (EditorModel { files: e.files.update(i, entry), unsaved, can_save: e.can_save }, events)
        },
    }
}

/// What saving gives: the files as they are recorded afterwards, what the
/// views are told, and the files that have to be written.
pub struct SaveModel {
    pub files: Seq<FileModel>,
    pub events: Seq<EventModel>,
    pub jobs: Seq<JobModel>,
}

/// Saving the files named by `unsaved` from `index` on. Every one of them is
/// no longer unsaved. One that is tracked is written where the hash of its
/// bytes differs from what was last saved, and that hash is recorded.
pub open spec fn after_save(unsaved: Seq<Seq<u8>>, index: int, sofar: SaveModel) -> SaveModel
    decreases unsaved.len() - index,
{
    if index < 0 || index >= unsaved.len() {
        sofar
    } else {
        let file = unsaved[index];
        let events = sofar.events.push(EventModel::SaveStatus { file, unsaved: false });
        match file_index(sofar.files, file, 0) {
            None => after_save(unsaved, index + 1, SaveModel { events, ..sofar }),
            Some(i) => {
                let bytes = document_text(sofar.files[i].data);
                let hash = CobFileHash(hash_of(bytes));
                if hash == sofar.files[i].last_save_hash {
                    after_save(unsaved, index + 1, SaveModel { events, ..sofar })
                } else {
                    after_save(
                        unsaved,
                        index + 1,
                        SaveModel {
                            files: sofar.files.update(
                                i,
                                FileModel { last_save_hash: hash, ..sofar.files[i] },
                            ),
                            events,
                            jobs: sofar.jobs.push(
                                JobModel {
                                    file,
                                    bytes,
                                    old_hash: sofar.files[i].last_save_hash,
                                    new_hash: hash,
                                },
                            ),
                        },
                    )
                }
            },
        }
    }
}

pub open spec fn events_view(events: Seq<EditorEvent>) -> Seq<EventModel> {
    events.map_values(|event: EditorEvent| event@)
}

pub open spec fn jobs_view(jobs: Seq<SaveJob>) -> Seq<JobModel> {
    jobs.map_values(|job: SaveJob| job@)
}

impl CobEditor {
    /// An editor that tracks no file.
    pub fn new(can_save: bool) -> (r: Self)
        ensures
            r@ == (EditorModel { files: Seq::empty(), unsaved: Seq::empty(), can_save }),
    {
        let r = CobEditor { files: Vec::new(), unsaved: Vec::new(), can_save };
        proof {
            assert(r@.files =~= Seq::<FileModel>::empty());
            assert(r@.unsaved =~= Seq::<Seq<u8>>::empty());
        }
        r
    }

    /// Whether any file holds changes that are not saved.
    pub fn any_unsaved(&self) -> (r: bool)
        ensures
            r == (self@.unsaved.len() > 0),
    {
        self.unsaved.len() > 0
    }

    /// The index of the file called `file`.
    pub fn find_file(&self, file: &str) -> (r: Option<usize>)
        ensures
            match r {
                Some(i) => file_index(self@.files, encode_utf8(file@), 0) == Some(i as int) && i
                    < self.files@.len(),
                None => file_index(self@.files, encode_utf8(file@), 0) is None,
            },
    {
        let mut i: usize = 0;
        while i < self.files.len()
            invariant
                0 <= i <= self.files@.len(),
                file_index(self@.files, encode_utf8(file@), 0) == file_index(
                    self@.files,
                    encode_utf8(file@),
                    i as int,
                ),
            decreases self.files@.len() - i,
        {
            if same_text(self.files[i].file.as_str(), file) {
                return Some(i);
            }
            i += 1;
        }
        None
    }

    /// What the editor holds of the file called `file`.
    pub fn get_file(&self, file: &str) -> (r: Option<&CobFileData>)
        ensures
            match r {
                Some(data) => file_index(self@.files, encode_utf8(file@), 0) matches Some(i)
                    && *data == self.files@[i],
                None => file_index(self@.files, encode_utf8(file@), 0) is None,
            },
    {
        match self.find_file(file) {
            Some(i) => Some(&self.files[i]),
            None => None,
        }
    }

    /// The index of `file` among the unsaved files.
    fn find_unsaved(&self, file: &str) -> (r: Option<usize>)
        ensures
            match r {
                Some(i) => name_index(self@.unsaved, encode_utf8(file@), 0) == Some(i as int) && i
                    < self.unsaved@.len(),
                None => name_index(self@.unsaved, encode_utf8(file@), 0) is None,
            },
    {
        let mut i: usize = 0;
        while i < self.unsaved.len()
            invariant
                0 <= i <= self.unsaved@.len(),
                name_index(self@.unsaved, encode_utf8(file@), 0) == name_index(
                    self@.unsaved,
                    encode_utf8(file@),
                    i as int,
                ),
            decreases self.unsaved@.len() - i,
        {
            if same_text(self.unsaved[i].as_str(), file) {
                return Some(i);
            }
            i += 1;
        }
        None
    }

    /// Adds a file that was just loaded.
    pub fn add_processed(
        &mut self,
        hash: CobFileHash,
        file: &str,
        data: &Caf,
        using: &NameShortcuts,
    ) -> (events: Vec<EditorEvent>)
        ensures
            (final(self)@, events_view(events@)) == after_processed(
                old(self)@,
                hash,
                encode_utf8(file@),
                data@,
                using.entries@,
            ),
    {
        let mut events: Vec<EditorEvent> = Vec::new();
        let Some(at) = self.find_file(file) else {
            self.files.push(
                CobFileData {
                    file: file.to_owned(),
                    last_save_hash: hash,
                    data: data.duplicate(),
                    using: using.duplicate(),
                },
            );
            events.push(EditorEvent::NewFile { file: file.to_owned() });
            proof {
                assert(self@.files =~= old(self)@.files.push(
                    FileModel {
                        file: encode_utf8(file@),
                        last_save_hash: hash,
                        data: data@,
                        using: using.entries@,
                    },
                ));
                assert(events_view(events@) =~= seq![
                    EventModel::NewFile { file: encode_utf8(file@) },
                ]);
            }
            return events;
        };
        // Always tell the views, in case they have to be made again because of a
        // changed `using`.
        events.push(EditorEvent::FileExternalChange { file: file.to_owned() });
        // Remove from unsaved.
        let removed = match self.find_unsaved(file) {
            Some(index) => {
                let _ = self.unsaved.remove(index);
                proof {
                    assert(self@.unsaved =~= old(self)@.unsaved.remove(index as int));
                }
                true
            },
            None => false,
        };
        let existing = self.files.remove(at);
        // Always update `using` in case it got updated. Keep the data if it is the same
        // data unless there are unsaved changes that have to be discarded.
        let entry = if !removed && existing.last_save_hash == hash {
            CobFileData {
                file: existing.file,
                last_save_hash: existing.last_save_hash,
                data: existing.data,
                using: using.duplicate(),
            }
        } else {
            CobFileData {
                file: existing.file,
                last_save_hash: hash,
                data: data.duplicate(),
                using: using.duplicate(),
            }
        };
        self.files.insert(at, entry);
        if removed {
            events.push(EditorEvent::SaveStatus { file: file.to_owned(), unsaved: false });
        }
        proof {
            assert(self@.files =~= old(self)@.files.update(at as int, entry@));
            if removed {
                assert(events_view(events@) =~= seq![
                    EventModel::FileExternalChange { file: encode_utf8(file@) },
                    EventModel::SaveStatus { file: encode_utf8(file@), unsaved: false },
                ]);
            } else {
                assert(events_view(events@) =~= seq![
                    EventModel::FileExternalChange { file: encode_utf8(file@) },
                ]);
            }
        }
        events
    }

    /// Records that a file holds changes that are not saved.
    pub fn mark_unsaved(&mut self, file: String) -> (event: EditorEvent)
        ensures
            event@ == (EventModel::SaveStatus { file: encode_utf8(file@), unsaved: true }),
            final(self)@.files == old(self)@.files,
            final(self)@.can_save == old(self)@.can_save,
            final(self)@.unsaved == match name_index(old(self)@.unsaved, encode_utf8(file@), 0) {
                Some(_) => old(self)@.unsaved,
                None => old(self)@.unsaved.push(encode_utf8(file@)),
            },
    {
        let event = EditorEvent::SaveStatus { file: file.clone(), unsaved: true };
        if self.find_unsaved(file.as_str()).is_none() {
            self.unsaved.push(file);
            proof {
                assert(self@.unsaved =~= old(self)@.unsaved.push(encode_utf8(file@)));
            }
        }
        event
    }

    /// Saves currently-unsaved files: gives the files that have to be
    /// written. Where there is no directory to save to, nothing is written
    /// and nothing stays unsaved.
    pub fn save(&mut self) -> (r: (Vec<EditorEvent>, Vec<SaveJob>))
        ensures
            final(self)@.unsaved.len() == 0,
            final(self)@.can_save == old(self)@.can_save,
            !old(self)@.can_save ==> final(self)@.files == old(self)@.files && r.0@.len() == 0
                && r.1@.len() == 0,
            old(self)@.can_save ==> (SaveModel {
                files: final(self)@.files,
                events: events_view(r.0@),
                jobs: jobs_view(r.1@),
            }) == after_save(
                old(self)@.unsaved,
                0,
                SaveModel { files: old(self)@.files, events: Seq::empty(), jobs: Seq::empty() },
            ),
    {
        let mut events: Vec<EditorEvent> = Vec::new();
        let mut jobs: Vec<SaveJob> = Vec::new();
        if !self.can_save {
            self.unsaved.clear();
            proof {
                assert(self@.unsaved =~= Seq::<Seq<u8>>::empty());
            }
            return (events, jobs);
        }
        let ghost names = self@.unsaved;
        let ghost whole = after_save(
            names,
            0,
            SaveModel { files: self@.files, events: Seq::empty(), jobs: Seq::empty() },
        );
        proof {
            assert(events_view(events@) =~= Seq::<EventModel>::empty());
            assert(jobs_view(jobs@) =~= Seq::<JobModel>::empty());
        }
        let mut i: usize = 0;
        while i < self.unsaved.len()
            invariant
                0 <= i <= self.unsaved@.len(),
                self.unsaved@ == old(self).unsaved@,
                self.can_save == old(self).can_save,
                names == self@.unsaved,
                whole == after_save(
                    names,
                    i as int,
                    SaveModel {
                        files: self@.files,
                        events: events_view(events@),
                        jobs: jobs_view(jobs@),
                    },
                ),
            decreases self.unsaved@.len() - i,
        {
            let ghost before_events = events_view(events@);
            let ghost before_jobs = jobs_view(jobs@);
            let ghost before_files = self@.files;
            let name = self.unsaved[i].clone();
            assert(encode_utf8(name@) == names[i as int]);
            events.push(EditorEvent::SaveStatus { file: name.clone(), unsaved: false });
            proof {
                assert(events_view(events@) =~= before_events.push(
                    EventModel::SaveStatus { file: names[i as int], unsaved: false },
                ));
            }
            match self.find_file(name.as_str()) {
                None => {},
                Some(at) => {
                    // Collect bytes.
                    let mut buff: Vec<u8> = Vec::new();
                    self.files[at].data.write_to(&mut buff);
                    proof {
                        assert(buff@ =~= document_text(self.files@[at as int].data@));
                    }
                    // Compute hash.
                    let hash = CobFileHash::new(buff.as_slice());
                    let old_hash = self.files[at].last_save_hash;
                    // If the hash did not change, there is no need to save the file,
                    // since the 'unsaved' status is spurious.
                    if !(hash == old_hash) {
                        let existing = self.files.remove(at);
                        let entry = CobFileData {
                            file: existing.file,
                            last_save_hash: hash,
                            data: existing.data,
                            using: existing.using,
                        };
                        self.files.insert(at, entry);
                        let job = SaveJob { file: name, bytes: buff, old_hash, new_hash: hash };
                        jobs.push(job);
                        proof {
                            assert(self@.files =~= before_files.update(at as int, entry@));
                            assert(jobs_view(jobs@) =~= before_jobs.push(job@));
                        }
                    }
                },
            }
            i += 1;
        }
        self.unsaved.clear();
        proof {
            assert(self@.unsaved =~= Seq::<Seq<u8>>::empty());
        }
        (events, jobs)
    }
}

} // verus!
