//! The parts of a file interface that decide something: what kind a file
//! is, how a file is to be opened, and what a directory listing's line names.

use vstd::prelude::*;

verus! {

/// The mode with which a directory is created.
pub const DIR_MODE: usize = 755;

/// An open file: the number by which the system knows it.
#[derive(Debug, PartialEq, Eq)]
pub struct File {
    pub fd: usize,
}

/// Whether a file is a directory, a plain file, both or neither.
#[derive(Clone, Copy, Debug, PartialEq, Eq, Structural)]
pub struct FileType {
    pub dir: bool,
    pub file: bool,
}

/// How a file is to be opened.
#[derive(Clone, Copy, Debug, PartialEq, Eq, Structural)]
pub struct OpenOptions {
    pub read: bool,
    pub write: bool,
    pub append: bool,
    pub create: bool,
    pub truncate: bool,
}

/// The bits that the system's open call knows, as the system defines them.
#[derive(Clone, Copy, Debug, PartialEq, Eq, Structural)]
pub struct OpenBits {
    pub read_only: usize,
    pub write_only: usize,
    pub read_write: usize,
    pub append: usize,
    pub create: usize,
    pub truncate: usize,
}

/// An entry of a directory: its name without a trailing slash, and its kind.
#[derive(Clone, Debug, PartialEq, Eq)]
pub struct DirEntry {
    pub path: Vec<u8>,
    pub dir: bool,
    pub file: bool,
}

/// What the system says of a file: its mode word and its size, together
/// with the mode bits by which the system marks a directory and a plain file.
#[derive(Clone, Copy, Debug, PartialEq, Eq, Structural)]
pub struct Metadata {
    pub mode: u16,
    pub size: u64,
    pub dir_bits: u16,
    pub file_bits: u16,
}

/// Where a position in a file is counted from.
#[derive(Clone, Copy, Debug, PartialEq, Eq, Structural)]
pub enum SeekFrom {
    Start(u64),
    Current(i64),
    End(i64),
}

/// The numbers by which the system's seek call names the three origins.
#[derive(Clone, Copy, Debug, PartialEq, Eq, Structural)]
pub struct Whence {
    pub set: usize,
    pub cur: usize,
    pub end: usize,
}

/// A directory listing that is being read: the bytes of the line so far.
#[derive(Clone, Debug, PartialEq, Eq)]
pub struct ReadDir {
    pub line: Vec<u8>,
}

/// Whether a line goes on after a read of one byte: the read must have
/// succeeded and brought a byte, and the byte must not be a line feed.
pub open spec fn spec_goes_on(count: Option<usize>, byte: u8) -> bool {
    match count {
        Some(n) => n > 0 && byte != 10,
        None => false,
    }
}

/// `bit` if `on`, else nothing.
pub open spec fn spec_bit(on: bool, bit: usize) -> usize {
    if on {
        bit
    } else {
        0
    }
}

impl File {
    /// The options with which a file is opened when nothing else is said:
    /// for reading only.
    pub open spec fn spec_open_options() -> OpenOptions {
        OpenOptions { read: true, write: false, append: false, create: false, truncate: false }
    }

    /// The options with which a file is created: for reading and writing,
    /// made if it is missing, emptied if it is not.
    pub open spec fn spec_create_options() -> OpenOptions {
        OpenOptions { read: true, write: true, append: false, create: true, truncate: true }
    }

    /// The options with which a file is opened when nothing else is said.
    pub fn open_options() -> (o: OpenOptions)
        ensures
            o == Self::spec_open_options(),
    {
        OpenOptions { read: true, write: false, append: false, create: false, truncate: false }
    }

    /// The options with which a file is created.
    pub fn create_options() -> (o: OpenOptions)
        ensures
            o == Self::spec_create_options(),
    {
        OpenOptions { read: true, write: true, append: false, create: true, truncate: true }
    }

    /// The file that the system knows by this number.
    pub fn from_fd(fd: usize) -> (f: File)
        ensures
            f.fd == fd,
    {
        File { fd }
    }

    /// The number by which the system knows the file.
    pub fn as_raw_fd(&self) -> (fd: usize)
        ensures
            fd == self.fd,
    {
        self.fd
    }

    /// Gives the file up for its number.
    pub fn into_raw_fd(self) -> (fd: usize)
        ensures
            fd == self.fd,
    {
        self.fd
    }
}

impl FileType {
    /// The kind that a mode word names: a directory if it holds every bit of
    /// `dir_bits`, a plain file if it holds every bit of `file_bits`.
    pub open spec fn spec_from_mode(mode: u16, dir_bits: u16, file_bits: u16) -> FileType {
        FileType { dir: mode & dir_bits == dir_bits, file: mode & file_bits == file_bits }
    }

    /// The kind that a mode word names.
    pub fn from_mode(mode: u16, dir_bits: u16, file_bits: u16) -> (t: FileType)
        ensures
            t == Self::spec_from_mode(mode, dir_bits, file_bits),
    {
        FileType { dir: mode & dir_bits == dir_bits, file: mode & file_bits == file_bits }
    }

    /// Whether the file is a directory.
    pub fn is_dir(&self) -> (r: bool)
        ensures
            r == self.dir,
    {
        self.dir
    }

    /// Whether the file is a plain file.
    pub fn is_file(&self) -> (r: bool)
        ensures
            r == self.file,
    {
        self.file
    }
}

impl OpenOptions {
    /// The access mode of the open call: reading and writing, one of them,
    /// or nothing.
    pub open spec fn spec_access(&self, bits: OpenBits) -> usize {
        if self.read && self.write {
            bits.read_write
        } else if self.read {
            bits.read_only
        } else if self.write {
            bits.write_only
        } else {
            0
        }
    }

    /// The flags of the open call: the access mode together with the bit of
    /// each option that is switched on.
    pub open spec fn spec_flags(&self, bits: OpenBits) -> usize {
        self.spec_access(bits) | spec_bit(self.append, bits.append) | spec_bit(
            self.create,
            bits.create,
        ) | spec_bit(self.truncate, bits.truncate)
    }

    /// Options with everything switched off.
    pub fn new() -> (o: OpenOptions)
        ensures
            o == (OpenOptions {
                read: false,
                write: false,
                append: false,
                create: false,
                truncate: false,
            }),
    {
        OpenOptions { read: false, write: false, append: false, create: false, truncate: false }
    }

    /// Sets whether the file is opened for reading.
    pub fn read(&mut self, read: bool) -> (r: &mut OpenOptions)
        ensures
            *r == (OpenOptions { read, ..*old(self) }),
            *final(self) == *final(r),
    {
        self.read = read;
        self
    }

    /// Sets whether the file is opened for writing.
    pub fn write(&mut self, write: bool) -> (r: &mut OpenOptions)
        ensures
            *r == (OpenOptions { write, ..*old(self) }),
            *final(self) == *final(r),
    {
        self.write = write;
        self
    }

    /// Sets whether writes go to the end of the file.
    pub fn append(&mut self, append: bool) -> (r: &mut OpenOptions)
        ensures
            *r == (OpenOptions { append, ..*old(self) }),
            *final(self) == *final(r),
    {
        self.append = append;
        self
    }

    /// Sets whether the file is created if it is missing.
    pub fn create(&mut self, create: bool) -> (r: &mut OpenOptions)
        ensures
            *r == (OpenOptions { create, ..*old(self) }),
            *final(self) == *final(r),
    {
        self.create = create;
        self
    }

    /// Sets whether the file is emptied when it is opened.
    pub fn truncate(&mut self, truncate: bool) -> (r: &mut OpenOptions)
        ensures
            *r == (OpenOptions { truncate, ..*old(self) }),
            *final(self) == *final(r),
    {
        self.truncate = truncate;
        self
    }

    /// The flags to hand to the system's open call.
    pub fn flags(&self, bits: &OpenBits) -> (f: usize)
        ensures
            f == self.spec_flags(*bits),
    {
        let mut flags: usize = if self.read && self.write {
            bits.read_write
        } else if self.read {
            bits.read_only
        } else if self.write {
            bits.write_only
        } else {
            0
        };
        flags = flags | if self.append { bits.append } else { 0 };
        flags = flags | if self.create { bits.create } else { 0 };
        flags = flags | if self.truncate { bits.truncate } else { 0 };
        flags
    }
}

impl Metadata {
    /// The kind of the file.
    pub fn file_type(&self) -> (t: FileType)
        ensures
            t == FileType::spec_from_mode(self.mode, self.dir_bits, self.file_bits),
    {
        FileType::from_mode(self.mode, self.dir_bits, self.file_bits)
    }

    /// Whether the file is a directory.
    pub fn is_dir(&self) -> (r: bool)
        ensures
            r == (self.mode & self.dir_bits == self.dir_bits),
    {
        self.mode & self.dir_bits == self.dir_bits
    }

    /// Whether the file is a plain file.
    pub fn is_file(&self) -> (r: bool)
        ensures
            r == (self.mode & self.file_bits == self.file_bits),
    {
        self.mode & self.file_bits == self.file_bits
    }

    /// The size of the file in bytes.
    pub fn len(&self) -> (n: u64)
        ensures
            n == self.size,
    {
        self.size
    }
}

impl SeekFrom {
    /// The origin and the offset to hand to the system's seek call.
    pub open spec fn spec_args(&self, whence: Whence) -> (usize, isize) {
        match *self {
            SeekFrom::Start(offset) => (whence.set, offset as isize),
            SeekFrom::Current(offset) => (whence.cur, offset as isize),
            SeekFrom::End(offset) => (whence.end, offset as isize),
        }
    }

    /// The origin and the offset to hand to the system's seek call.
    pub fn args(&self, whence: &Whence) -> (r: (usize, isize))
        ensures
            r == self.spec_args(*whence),
    {
        match *self {
            SeekFrom::Start(offset) => (whence.set, offset as isize),
            SeekFrom::Current(offset) => (whence.cur, offset as isize),
            SeekFrom::End(offset) => (whence.end, offset as isize),
        }
    }
}

impl ReadDir {
    /// A listing of which nothing was read yet.
    pub fn new() -> (r: ReadDir)
        ensures
            r.line@ == Seq::<u8>::empty(),
    {
        ReadDir { line: Vec::new() }
    }

    /// Takes what a read of one byte gave: how many bytes came, or nothing
    /// if the read failed, and the byte. Says whether the line goes on, and
    /// if it does, adds the byte to it.
    pub fn feed(&mut self, count: Option<usize>, byte: u8) -> (more: bool)
        ensures
            more == spec_goes_on(count, byte),
            final(self).line@ == (if more {
                old(self).line@.push(byte)
            } else {
                old(self).line@
            }),
    {
        match count {
            Some(n) => {
                if n > 0 && byte != 10 {
                    self.line.push(byte);
                    true
                } else {
                    false
                }
            },
            None => false,
        }
    }

    /// The entry that the line names, and a listing ready for the next line.
    pub fn next(&mut self) -> (r: Option<DirEntry>)
        ensures
            final(self).line@ == Seq::<u8>::empty(),
            match r {
                Some(e) => DirEntry::spec_from_line(old(self).line@) == Some((e.path@, e.dir))
                    && e.file == !e.dir,
                None => DirEntry::spec_from_line(old(self).line@).is_none(),
            },
    {
        let mut line: Vec<u8> = Vec::new();
        std::mem::swap(&mut self.line, &mut line);
        DirEntry::from_line(line)
    }
}

impl DirEntry {
    /// What a line of a directory listing names: nothing if it is empty;
    /// else a directory if it ends in a slash, which is no part of the name,
    /// and a plain file if it does not.
    pub open spec fn spec_from_line(line: Seq<u8>) -> Option<(Seq<u8>, bool)> {
        if line.len() == 0 {
            None
        } else if line.last() == 0x2F {
            Some((line.drop_last(), true))
        } else {
            Some((line, false))
        }
    }

    /// Turns a line of a directory listing into an entry.
    pub fn from_line(line: Vec<u8>) -> (r: Option<DirEntry>)
        ensures
            match r {
                Some(e) => Self::spec_from_line(line@) == Some((e.path@, e.dir)) && e.file
                    == !e.dir,
                None => Self::spec_from_line(line@).is_none(),
            },
    {
        let mut path = line;
        if path.len() == 0 {
            return None;
        }
        let dir = path[path.len() - 1] == 0x2F;
        if dir {
            path.pop();
        }
        Some(DirEntry { path, dir, file: !dir })
    }

    /// The name of the entry.
    pub fn file_name(&self) -> (name: &Vec<u8>)
        ensures
            name@ == self.path@,
    {
        &self.path
    }

    /// A copy of the entry's name.
    pub fn path(&self) -> (name: Vec<u8>)
        ensures
            name@ == self.path@,
    {
        self.path.clone()
    }

    /// The kind of the entry.
    pub fn file_type(&self) -> (t: FileType)
        ensures
            t == (FileType { dir: self.dir, file: self.file }),
    {
        FileType { dir: self.dir, file: self.file }
    }
}

} // verus!
