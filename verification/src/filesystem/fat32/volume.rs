//! A mounted FAT32 volume: its layout, the cached listing of its root
//! directory, and the decisions of its file operations. The sectors
//! themselves are read and written by the caller; the FAT is changed in the
//! in-memory [`FatTable`].
use vstd::prelude::*;
use super::boot::{Fat32Geometry, SECTOR_SIZE, bs_fat_sectors, bs_reserved_sectors, bs_total_sectors, boot_sector_valid};
use super::dir::{entry_cluster, entry_name, listed_offsets, list_directory_cluster, record_of, DirRecord, ATTR_DIRECTORY};
use crate::elf::bytes::le_u32;
use super::names::{bytes_as_chars, fat_83, fat_name_of_bytes, fat_name_of_chars};
use super::table::{
    fat_read, is_data_cluster, same_volume, truncate_chain_result, FatTable, FAT_EOC_MIN,
};
use crate::filesystem::{FileEntry, FilesystemError, FilesystemResult};

verus! {

/// Most entries of the cached root listing.
pub const MAX_CACHED_FILES: usize = 64;
/// Largest cluster the driver's buffers hold.
pub const MAX_CLUSTER_BYTES: usize = 4096;

/// Whether `e` is the cache entry for the directory entry at `off` of `b`:
/// a directory has size 0.
pub open spec fn entry_listed(e: FileEntry, b: Seq<u8>, off: int) -> bool {
    &&& e.name@ == entry_name(b, off)
    &&& e.is_directory == (b[off + 11] & ATTR_DIRECTORY != 0)
    &&& e.inode == entry_cluster(b, off)
    &&& e.size == if e.is_directory { 0 } else { le_u32(b, off + 28) as usize }
}

pub struct Fat32FileSystem {
    geometry: Option<Fat32Geometry>,
    files: Vec<FileEntry>,
    initialized: bool,
    mounted: bool,
}

impl Fat32FileSystem {
    pub closed spec fn geom(&self) -> Option<Fat32Geometry> {
        self.geometry
    }

    /// The cached listing of the root directory.
    pub closed spec fn cached(&self) -> Seq<FileEntry> {
        self.files@
    }

    pub closed spec fn spec_initialized(&self) -> bool {
        self.initialized
    }

    pub closed spec fn spec_mounted(&self) -> bool {
        self.mounted
    }

    pub open spec fn wf(&self) -> bool {
        &&& self.cached().len() <= MAX_CACHED_FILES
        &&& self.spec_mounted() ==> self.geom() is Some
    }

    pub fn new() -> (fs: Self)
        ensures
            fs.wf(),
            fs.geom() is None,
            fs.cached() == Seq::<FileEntry>::empty(),
            !fs.spec_initialized(),
            !fs.spec_mounted(),
    {
        Fat32FileSystem { geometry: None, files: Vec::new(), initialized: false, mounted: false }
    }

    /// Takes the layout from boot sector `boot`; the volume is initialised,
    /// and mounted once its root directory is read (`mount`).
    pub fn init(&mut self, boot: &[u8]) -> (r: FilesystemResult<()>)
        requires
            old(self).wf(),
            boot@.len() == SECTOR_SIZE,
            bs_fat_sectors(boot@) <= u32::MAX,
            boot_sector_valid(boot@) ==> bs_reserved_sectors(boot@) + bs_fat_sectors(boot@) <= bs_total_sectors(boot@),
        ensures
            final(self).wf(),
            boot_sector_valid(boot@) ==> r is Ok && final(self).geom() == Some(Fat32Geometry::of(boot@))
                && final(self).spec_initialized(),
            !boot_sector_valid(boot@) ==> r == Err::<(), FilesystemError>(FilesystemError::InvalidBootSector)
                && *final(self) == *old(self),
            final(self).cached() == old(self).cached(),
            final(self).spec_mounted() == old(self).spec_mounted(),
    {
        match Fat32Geometry::from_boot_sector(boot) {
            Ok(g) => {
                self.geometry = Some(g);
                self.initialized = true;
                Ok(())
            },
            Err(e) => Err(e),
        }
    }

    /// Replaces the cached listing by the entries of directory cluster
    /// `cluster_data` (only its first cluster is listed), at most 64.
    pub fn read_directory(&mut self, cluster_data: &[u8]) -> (r: FilesystemResult<()>)
        requires
            old(self).wf(),
            old(self).geom() matches Some(g) && g.cluster_bytes() <= cluster_data@.len(),
        ensures
            final(self).wf(),
            final(self).geom() == old(self).geom(),
            final(self).spec_initialized() == old(self).spec_initialized(),
            final(self).spec_mounted() == old(self).spec_mounted(),
            ({
                let g = old(self).geom()->0;
                let offs = listed_offsets(cluster_data@, 0, g.cluster_bytes() / 32);
                &&& g.cluster_bytes() > MAX_CLUSTER_BYTES ==> r == Err::<(), FilesystemError>(FilesystemError::IoError)
                    && final(self).cached() == Seq::<FileEntry>::empty()
                &&& g.cluster_bytes() <= MAX_CLUSTER_BYTES ==> r is Ok
                    && final(self).cached().len() == if offs.len() < MAX_CACHED_FILES { offs.len() } else { MAX_CACHED_FILES as nat }
                    && forall|i: int| 0 <= i < final(self).cached().len() ==> entry_listed(#[trigger] final(self).cached()[i], cluster_data@, offs[i])
            }),
    {
        self.files = Vec::new();
        let g = match self.geometry {
            Some(g) => g,
            None => {
                return Err(FilesystemError::NotInitialized);
            },
        };
        let cluster_size = cluster_bytes(&g);
        if cluster_size > MAX_CLUSTER_BYTES {
            return Err(FilesystemError::IoError);
        }
        let records = list_directory_cluster(cluster_data, cluster_size);
        let ghost offs = listed_offsets(cluster_data@, 0, cluster_size as int / 32);
        let mut i: usize = 0;
        while i < records.len() && i < MAX_CACHED_FILES
            invariant
                i <= records@.len(),
                i <= MAX_CACHED_FILES,
                records@.len() == offs.len(),
                forall|k: int| 0 <= k < records@.len() ==> record_of(#[trigger] records@[k], cluster_data@, offs[k]),
                self.files@.len() == i,
                self.geometry == old(self).geometry,
                self.initialized == old(self).initialized,
                self.mounted == old(self).mounted,
                forall|k: int| 0 <= k < i ==> entry_listed(#[trigger] self.files@[k], cluster_data@, offs[k]),
            decreases records@.len() - i,
        {
            let rec = &records[i];
            let entry = if rec.is_directory {
                FileEntry::new_directory(crate::filesystem::copy_bytes(rec.name.as_slice()), rec.first_cluster as u64)
            } else {
                FileEntry::new_file(crate::filesystem::copy_bytes(rec.name.as_slice()), rec.first_cluster as u64, rec.size as usize)
            };
            proof {
                assert(record_of(records@[i as int], cluster_data@, offs[i as int]));
            }
            self.files.push(entry);
            i = i + 1;
        }
        Ok(())
    }

    /// Reads the root directory's first cluster into the cache and marks the
    /// volume mounted.
    pub fn mount(&mut self, root_cluster_data: &[u8]) -> (r: FilesystemResult<()>)
        requires
            old(self).wf(),
            old(self).geom() matches Some(g) && g.cluster_bytes() <= root_cluster_data@.len(),
        ensures
            final(self).wf(),
            final(self).geom() == old(self).geom(),
            final(self).spec_mounted() == (r is Ok || old(self).spec_mounted()),
            r is Ok <==> old(self).geom()->0.cluster_bytes() <= MAX_CLUSTER_BYTES,
    {
        let r = self.read_directory(root_cluster_data);
        if r.is_ok() {
            self.mounted = true;
        }
        r
    }

    pub fn is_initialized(&self) -> (b: bool)
        ensures
            b == self.spec_initialized(),
    {
        self.initialized
    }

    pub fn is_mounted(&self) -> (b: bool)
        ensures
            b == self.spec_mounted(),
    {
        self.mounted
    }

    /// Signature, 32-bit sector count and sector size, once initialised.
    pub fn get_filesystem_info(&self) -> (r: Option<(u16, u32, u16)>)
        ensures
            r == match self.geom() {
                Some(g) => Some((g.signature, g.total_sectors_32, g.bytes_per_sector)),
                None => None::<(u16, u32, u16)>,
            },
    {
        match self.geometry {
            Some(g) => Some((g.signature, g.total_sectors_32, g.bytes_per_sector)),
            None => None,
        }
    }

    pub fn geometry(&self) -> (g: Option<Fat32Geometry>)
        ensures
            g == self.geom(),
    {
        self.geometry
    }

    /// The cached entries.
    pub fn files(&self) -> (f: &Vec<FileEntry>)
        ensures
            f@ == self.cached(),
    {
        &self.files
    }
}

/// Bytes in one cluster of `g`.
pub fn cluster_bytes(g: &Fat32Geometry) -> (n: usize)
    ensures
        n == g.cluster_bytes(),
{
    let spc = g.sectors_per_cluster as usize;
    let bps = g.bytes_per_sector as usize;
    assert(spc * bps <= 255 * 65535) by (nonlinear_arith)
        requires
            spc <= 255,
            bps <= 65535,
    ;
    spc * bps
}

/// Whether the bytes `a`, read as one character each, spell `cs`.
pub open spec fn name_is(a: Seq<u8>, cs: Seq<char>) -> bool {
    bytes_as_chars(a) == cs
}

fn bytes_spell(a: &[u8], cs: &[char]) -> (r: bool)
    ensures
        r == name_is(a@, cs@),
{
    if a.len() != cs.len() {
        proof {
            assert(bytes_as_chars(a@).len() == a@.len());
        }
        return false;
    }
    let mut i: usize = 0;
    while i < a.len()
        invariant
            a@.len() == cs@.len(),
            i <= a@.len(),
            forall|k: int| 0 <= k < i ==> (a@[k] as char) == cs@[k],
        decreases a@.len() - i,
    {
        if a[i] as char != cs[i] {
            proof {
                assert(bytes_as_chars(a@)[i as int] != cs@[i as int]);
            }
            return false;
        }
        i = i + 1;
    }
    assert(bytes_as_chars(a@) =~= cs@);
    true
}

/// The bytes of the ASCII characters `cs`.
pub open spec fn chars_as_bytes(cs: Seq<char>) -> Seq<u8> {
    cs.map_values(|c: char| c as u8)
}

fn str_chars(s: &str) -> (r: Vec<char>)
    ensures
        r@ == s@,
{
    let n = s.unicode_len();
    let mut r: Vec<char> = Vec::new();
    let mut i: usize = 0;
    while i < n
        invariant
            n == s@.len(),
            i <= n,
            r@ == s@.take(i as int),
        decreases n - i,
    {
        r.push(s.get_char(i));
        i = i + 1;
        assert(r@ =~= s@.take(i as int));
    }
    assert(r@ =~= s@);
    r
}

fn chars_to_bytes(cs: &[char]) -> (r: Vec<u8>)
    ensures
        r@ == chars_as_bytes(cs@),
{
    let mut r: Vec<u8> = Vec::new();
    let mut i: usize = 0;
    while i < cs.len()
        invariant
            i <= cs@.len(),
            r@ == chars_as_bytes(cs@).take(i as int),
        decreases cs@.len() - i,
    {
        r.push(cs[i] as u8);
        i = i + 1;
        assert(r@ =~= chars_as_bytes(cs@).take(i as int));
    }
    assert(r@ =~= chars_as_bytes(cs@));
    r
}

/// Index of the first entry of `fs` satisfying `f`, if any.
pub open spec fn first_match(fs: Seq<FileEntry>, f: spec_fn(FileEntry) -> bool) -> Option<int> {
    if exists|i: int| 0 <= i < fs.len() && f(fs[i]) {
        Some(choose|i: int| 0 <= i < fs.len() && f(fs[i]) && forall|j: int| 0 <= j < i ==> !f(fs[j]))
    } else {
        None
    }
}

/// The clusters the FAT gives after `current` while walking a directory.
pub open spec fn next_in_directory(g: Fat32Geometry, s: Seq<u32>, current: u32) -> FilesystemResult<Option<u32>> {
    match fat_read(g, s, current as int) {
        Err(e) => Err(e),
        Ok(v) => if v >= FAT_EOC_MIN {
            Ok(None)
        } else if !is_data_cluster(g, v as int) {
            Err(FilesystemError::CorruptedFilesystem)
        } else {
            Ok(Some(v))
        },
    }
}

/// The next cluster of a directory after `current`: none at its end; a
/// link out of the volume is corruption.
pub fn next_directory_cluster(fat: &FatTable, current: u32) -> (r: FilesystemResult<Option<u32>>)
    requires
        fat.wf(),
    ensures
        r == next_in_directory(fat.geom(), fat@, current),
{
    let v = match fat.read_fat_entry(current) {
        Ok(v) => v,
        Err(e) => {
            return Err(e);
        },
    };
    if v >= FAT_EOC_MIN {
        return Ok(None);
    }
    let g = fat.geometry();
    if v < 2 || v >= g.total_data_clusters + 2 {
        return Err(FilesystemError::CorruptedFilesystem);
    }
    Ok(Some(v))
}

/// The entries of a new directory and the entry that names it.
pub struct NewDirectory {
    pub cluster: u32,
    /// The "." entry, first in the new cluster.
    pub dot: Vec<u8>,
    /// The ".." entry, second in the new cluster.
    pub dot_dot: Vec<u8>,
    /// The entry in the parent directory.
    pub entry: Vec<u8>,
    pub file: FileEntry,
}

/// What remains to be done on disk after the FAT side of a truncation.
pub struct TruncatePlan {
    /// Whether the file's directory entry is to be updated at all.
    pub update_entry: bool,
    /// Clusters added to the file, to be zeroed.
    pub new_clusters: Vec<u32>,
    /// The 8.3 name under which the file's entry is updated.
    pub entry_name: [u8; 11],
    /// The size the entry gets.
    pub new_size: u32,
    /// Whether the entry's first cluster is cleared (a file cut to nothing).
    pub clear_cluster: bool,
}

impl Fat32FileSystem {
    /// Name and size of each cached entry; more than 32 do not fit.
    pub fn list_files(&self) -> (r: FilesystemResult<Vec<(Vec<u8>, usize)>>)
        ensures
            self.cached().len() > 32 ==> r == Err::<Vec<(Vec<u8>, usize)>, FilesystemError>(FilesystemError::Other),
            self.cached().len() <= 32 ==> (r matches Ok(v) && v@.len() == self.cached().len() && forall|i: int|
                0 <= i < v@.len() ==> (#[trigger] v@[i]).0@ == self.cached()[i].name@ && v@[i].1 == self.cached()[i].size),
    {
        if self.files.len() > 32 {
            return Err(FilesystemError::Other);
        }
        let mut out: Vec<(Vec<u8>, usize)> = Vec::new();
        let mut i: usize = 0;
        while i < self.files.len()
            invariant
                self.files@.len() <= 32,
                i <= self.files@.len(),
                out@.len() == i,
                forall|k: int| 0 <= k < i ==> (#[trigger] out@[k]).0@ == self.files@[k].name@ && out@[k].1 == self.files@[k].size,
            decreases self.files@.len() - i,
        {
            let f = &self.files[i];
            out.push((crate::filesystem::copy_bytes(f.name.as_slice()), f.size));
            i = i + 1;
        }
        Ok(out)
    }

    /// Name, size and kind of each cached entry (only the root directory is
    /// known, whatever `path` asks); more than 32 do not fit.
    pub fn list_directory(&self, path: &str) -> (r: FilesystemResult<Vec<(Vec<u8>, usize, bool)>>)
        ensures
            self.cached().len() > 32 ==> r == Err::<Vec<(Vec<u8>, usize, bool)>, FilesystemError>(FilesystemError::Other),
            self.cached().len() <= 32 ==> (r matches Ok(v) && v@.len() == self.cached().len() && forall|i: int|
                0 <= i < v@.len() ==> (#[trigger] v@[i]).0@ == self.cached()[i].name@ && v@[i].1 == self.cached()[i].size
                && v@[i].2 == self.cached()[i].is_directory),
    {
        if self.files.len() > 32 {
            return Err(FilesystemError::Other);
        }
        let mut out: Vec<(Vec<u8>, usize, bool)> = Vec::new();
        let mut i: usize = 0;
        while i < self.files.len()
            invariant
                self.files@.len() <= 32,
                i <= self.files@.len(),
                out@.len() == i,
                forall|k: int| 0 <= k < i ==> (#[trigger] out@[k]).0@ == self.files@[k].name@ && out@[k].1 == self.files@[k].size
                    && out@[k].2 == self.files@[k].is_directory,
            decreases self.files@.len() - i,
        {
            let f = &self.files[i];
            out.push((crate::filesystem::copy_bytes(f.name.as_slice()), f.size, f.is_directory));
            i = i + 1;
        }
        Ok(out)
    }

    /// Whether a cached entry (file or directory) is named `name`.
    pub fn file_exists(&self, name: &str) -> (b: bool)
        ensures
            b == exists|i: int| 0 <= i < self.cached().len() && name_is(#[trigger] self.cached()[i].name@, name@),
    {
        let cs = str_chars(name);
        let mut i: usize = 0;
        while i < self.files.len()
            invariant
                cs@ == name@,
                i <= self.files@.len(),
                forall|k: int| 0 <= k < i ==> !name_is(#[trigger] self.files@[k].name@, name@),
            decreases self.files@.len() - i,
        {
            if bytes_spell(self.files[i].name.as_slice(), cs.as_slice()) {
                assert(name_is(self.cached()[i as int].name@, name@));
                return true;
            }
            i = i + 1;
        }
        false
    }

    /// The first cached file (not directory) named `name`.
    pub fn find_file(&self, name: &str) -> (r: FilesystemResult<&FileEntry>)
        ensures
            match first_match(self.cached(), |e: FileEntry| name_is(e.name@, name@) && !e.is_directory) {
                Some(i) => r matches Ok(e) && *e == self.cached()[i],
                None => r == Err::<&FileEntry, FilesystemError>(FilesystemError::FileNotFound),
            },
    {
        let ghost f = |e: FileEntry| name_is(e.name@, name@) && !e.is_directory;
        let cs = str_chars(name);
        let mut i: usize = 0;
        while i < self.files.len()
            invariant
                cs@ == name@,
                f == (|e: FileEntry| name_is(e.name@, name@) && !e.is_directory),
                i <= self.files@.len(),
                forall|k: int| 0 <= k < i ==> !f(#[trigger] self.files@[k]),
            decreases self.files@.len() - i,
        {
            let e = &self.files[i];
            if !e.is_directory && bytes_spell(e.name.as_slice(), cs.as_slice()) {
                proof {
                    let fs = self.cached();
                    assert(f(fs[i as int]));
                    let j = choose|j: int| 0 <= j < fs.len() && f(fs[j]) && forall|k: int| 0 <= k < j ==> !f(fs[k]);
                    if j < i {
                        assert(!f(fs[j]));
                    } else if i < j {
                        assert(!f(fs[i as int]));
                    }
                }
                return Ok(e);
            }
            i = i + 1;
        }
        Err(FilesystemError::FileNotFound)
    }

    /// The size of the first cached file named `name`.
    pub fn get_file_size(&self, name: &str) -> (r: FilesystemResult<usize>)
        ensures
            match first_match(self.cached(), |e: FileEntry| name_is(e.name@, name@) && !e.is_directory) {
                Some(i) => r == Ok::<usize, FilesystemError>(self.cached()[i].size),
                None => r == Err::<usize, FilesystemError>(FilesystemError::FileNotFound),
            },
    {
        match self.find_file(name) {
            Ok(e) => Ok(e.size),
            Err(e) => Err(e),
        }
    }

    /// The sector that holds the start of `file`'s content: the first
    /// sector of its first cluster.
    pub fn file_data_sector(&self, file: &FileEntry) -> (r: FilesystemResult<u64>)
        requires
            self.geom() matches Some(g) ==> {
                &&& 2 <= (file.inode as u32)
                &&& g.reserved_sectors + g.num_fats * g.sectors_per_fat + ((file.inode as u32) - 2) * g.sectors_per_cluster <= u32::MAX
            },
        ensures
            match self.geom() {
                None => r == Err::<u64, FilesystemError>(FilesystemError::NotInitialized),
                Some(g) => r == Ok::<u64, FilesystemError>((g.reserved_sectors + g.num_fats * g.sectors_per_fat
                    + ((file.inode as u32) - 2) * g.sectors_per_cluster) as u64),
            },
    {
        let g = match self.geometry {
            Some(g) => g,
            None => {
                return Err(FilesystemError::NotInitialized);
            },
        };
        let cluster = file.inode as u32;
        let spc = g.sectors_per_cluster as u32;
        let reserved = g.reserved_sectors as u32;
        let num_fats = g.num_fats as u32;
        let spf = g.sectors_per_fat;
        proof {
            let a: int = num_fats as int * spf as int;
            let b: int = (cluster - 2) as int * spc as int;
            assert(a >= 0 && b >= 0) by (nonlinear_arith)
                requires
                    num_fats >= 0,
                    spf >= 0,
                    cluster >= 2,
                    spc >= 0,
                    a == num_fats as int * spf as int,
                    b == (cluster - 2) as int * spc as int,
            ;
        }
        let data_start = reserved + num_fats * spf;
        let sector = data_start + (cluster - 2) * spc;
        Ok(sector as u64)
    }

    /// Checks that a file named `name` may be created, and gives its 8.3 name.
    pub fn prepare_create_file(&self, name: &str) -> (r: FilesystemResult<[u8; 11]>)
        ensures
            !self.spec_mounted() ==> r == Err::<[u8; 11], FilesystemError>(FilesystemError::NotMounted),
            self.spec_mounted() && (exists|i: int| 0 <= i < self.cached().len() && name_is(#[trigger] self.cached()[i].name@, name@) && !self.cached()[i].is_directory)
                ==> r == Err::<[u8; 11], FilesystemError>(FilesystemError::FileAlreadyExists),
            self.spec_mounted() && !(exists|i: int| 0 <= i < self.cached().len() && name_is(#[trigger] self.cached()[i].name@, name@) && !self.cached()[i].is_directory)
                ==> match fat_83(name@) {
                    Ok(b) => r matches Ok(a) && a@ == b,
                    Err(e) => r == Err::<[u8; 11], FilesystemError>(e),
                },
    {
        if !self.mounted {
            return Err(FilesystemError::NotMounted);
        }
        let cs = str_chars(name);
        let mut i: usize = 0;
        while i < self.files.len()
            invariant
                cs@ == name@,
                self.mounted,
                i <= self.files@.len(),
                forall|k: int| 0 <= k < i ==> !(name_is(#[trigger] self.files@[k].name@, name@) && !self.files@[k].is_directory),
            decreases self.files@.len() - i,
        {
            let e = &self.files[i];
            if bytes_spell(e.name.as_slice(), cs.as_slice()) && !e.is_directory {
                assert(name_is(self.cached()[i as int].name@, name@) && !self.cached()[i as int].is_directory);
                return Err(FilesystemError::FileAlreadyExists);
            }
            i = i + 1;
        }
        fat_name_of_chars(cs.as_slice())
    }

    /// Checks that a directory named `name` may be created (no entry of
    /// either kind has the name), and gives its 8.3 name.
    pub fn prepare_create_directory(&self, name: &str) -> (r: FilesystemResult<[u8; 11]>)
        ensures
            !self.spec_mounted() ==> r == Err::<[u8; 11], FilesystemError>(FilesystemError::NotMounted),
            self.spec_mounted() && (exists|i: int| 0 <= i < self.cached().len() && name_is(#[trigger] self.cached()[i].name@, name@))
                ==> r == Err::<[u8; 11], FilesystemError>(FilesystemError::FileAlreadyExists),
            self.spec_mounted() && !(exists|i: int| 0 <= i < self.cached().len() && name_is(#[trigger] self.cached()[i].name@, name@))
                ==> match fat_83(name@) {
                    Ok(b) => r matches Ok(a) && a@ == b,
                    Err(e) => r == Err::<[u8; 11], FilesystemError>(e),
                },
    {
        if !self.mounted {
            return Err(FilesystemError::NotMounted);
        }
        if self.file_exists(name) {
            return Err(FilesystemError::FileAlreadyExists);
        }
        let cs = str_chars(name);
        fat_name_of_chars(cs.as_slice())
    }

    /// Allocates the first cluster of a new empty file named `name` and makes
    /// its directory entry (archive attribute, size 0).
    pub fn finish_create_file(&self, fat: &mut FatTable, name: &str, fat_name: &[u8; 11]) -> (r: FilesystemResult<(Vec<u8>, FileEntry)>)
        requires
            old(fat).wf(),
        ensures
            same_volume(&*old(fat), &*final(fat)),
            ({
                let (ra, s2) = super::table::allocate(old(fat).geom(), old(fat)@, None);
                &&& final(fat)@ == s2
                &&& match ra {
                    Err(e) => r matches Err(e2) && e2 == e,
                    Ok(c) => r matches Ok((entry, file)) && super::dir::is_entry_for(entry@, fat_name@, super::dir::ATTR_ARCHIVE, c, 0)
                        && file.name@ == chars_as_bytes(name@) && !file.is_directory && file.inode == c && file.size == 0,
                }
            }),
    {
        let cluster = match fat.allocate_cluster(None) {
            Ok(c) => c,
            Err(e) => {
                return Err(e);
            },
        };
        let entry = super::dir::encode_dir_entry(fat_name, super::dir::ATTR_ARCHIVE, cluster, 0);
        let cs = str_chars(name);
        let file = FileEntry::new_file(chars_to_bytes(cs.as_slice()), cluster as u64, 0);
        Ok((entry, file))
    }

    /// Allocates the cluster of a new directory named `name` in the root
    /// directory and makes its "." and ".." entries and its entry in the root.
    pub fn finish_create_directory(&self, fat: &mut FatTable, name: &str, fat_name: &[u8; 11]) -> (r: FilesystemResult<NewDirectory>)
        requires
            old(fat).wf(),
            self.geom() is Some,
        ensures
            same_volume(&*old(fat), &*final(fat)),
            ({
                let (ra, s2) = super::table::allocate(old(fat).geom(), old(fat)@, None);
                let root = self.geom()->0.root_dir_cluster;
                &&& final(fat)@ == s2
                &&& match ra {
                    Err(e) => r matches Err(e2) && e2 == e,
                    Ok(c) => r matches Ok(d) && d.cluster == c
                        && super::dir::is_entry_for(d.dot@, super::dir::dot_name(), super::dir::ATTR_DIRECTORY, c, 0)
                        && super::dir::is_entry_for(d.dot_dot@, super::dir::dot_dot_name(), super::dir::ATTR_DIRECTORY,
                            if root < 2 { 0 } else { root }, 0)
                        && super::dir::is_entry_for(d.entry@, fat_name@, super::dir::ATTR_DIRECTORY, c, 0)
                        && d.file.name@ == chars_as_bytes(name@) && d.file.is_directory && d.file.inode == c && d.file.size == 0,
                }
            }),
    {
        let root = match self.geometry {
            Some(g) => g.root_dir_cluster,
            None => 0,
        };
        let cluster = match fat.allocate_cluster(None) {
            Ok(c) => c,
            Err(e) => {
                return Err(e);
            },
        };
        let dot_name: [u8; 11] = [0x2e, 0x20, 0x20, 0x20, 0x20, 0x20, 0x20, 0x20, 0x20, 0x20, 0x20];
        let dot_dot_name: [u8; 11] = [0x2e, 0x2e, 0x20, 0x20, 0x20, 0x20, 0x20, 0x20, 0x20, 0x20, 0x20];
        assert(dot_name@ == super::dir::dot_name());
        assert(dot_dot_name@ == super::dir::dot_dot_name());
        let parent = if root < 2 { 0 } else { root };
        let dot = super::dir::encode_dir_entry(&dot_name, super::dir::ATTR_DIRECTORY, cluster, 0);
        let dot_dot = super::dir::encode_dir_entry(&dot_dot_name, super::dir::ATTR_DIRECTORY, parent, 0);
        let entry = super::dir::encode_dir_entry(fat_name, super::dir::ATTR_DIRECTORY, cluster, 0);
        let cs = str_chars(name);
        let file = FileEntry::new_directory(chars_to_bytes(cs.as_slice()), cluster as u64);
        Ok(NewDirectory { cluster, dot, dot_dot, entry, file })
    }

    /// Adds `file` to the cached listing unless it is full.
    pub fn remember(&mut self, file: FileEntry)
        requires
            old(self).wf(),
        ensures
            final(self).wf(),
            final(self).geom() == old(self).geom(),
            final(self).spec_mounted() == old(self).spec_mounted(),
            final(self).spec_initialized() == old(self).spec_initialized(),
            old(self).cached().len() < MAX_CACHED_FILES ==> final(self).cached() == old(self).cached().push(file),
            old(self).cached().len() >= MAX_CACHED_FILES ==> final(self).cached() == old(self).cached(),
    {
        if self.files.len() < MAX_CACHED_FILES {
            self.files.push(file);
        }
    }

    /// Drops every cached entry named `name`.
    pub fn forget(&mut self, name: &str)
        requires
            old(self).wf(),
        ensures
            final(self).wf(),
            final(self).geom() == old(self).geom(),
            final(self).spec_mounted() == old(self).spec_mounted(),
            final(self).spec_initialized() == old(self).spec_initialized(),
            final(self).cached() == old(self).cached().filter(|e: FileEntry| !name_is(e.name@, name@)),
    {
        let ghost f = |e: FileEntry| !name_is(e.name@, name@);
        let cs = str_chars(name);
        let mut kept: Vec<FileEntry> = Vec::new();
        let mut rest: Vec<FileEntry> = Vec::new();
        std::mem::swap(&mut rest, &mut self.files);
        let ghost all = rest@;
        let ghost mut i: int = 0;
        while rest.len() > 0
            invariant
                cs@ == name@,
                all == old(self).files@,
                f == (|e: FileEntry| !name_is(e.name@, name@)),
                0 <= i <= all.len(),
                rest@ == all.skip(i),
                kept@ == all.take(i).filter(f),
                kept@.len() <= i,
            decreases rest@.len(),
        {
            let e = rest.remove(0);
            proof {
                assert(all.take(i + 1).drop_last() =~= all.take(i));
                assert(all.take(i + 1).last() == all[i]);
                assert(e == all[i]);
                assert(all.skip(i).drop_first() =~= all.skip(i + 1));
            }
            let spelled = bytes_spell(e.name.as_slice(), cs.as_slice());
            proof {
                reveal(Seq::filter);
                assert(f(e) == !spelled);
                if !spelled {
                    assert(all.take(i + 1).filter(f) == all.take(i).filter(f).push(e));
                } else {
                    assert(all.take(i + 1).filter(f) == all.take(i).filter(f));
                }
            }
            if !spelled {
                kept.push(e);
            }
            proof {
                i = i + 1;
            }
        }
        proof {
            assert(all.take(all.len() as int) =~= all);
        }
        self.files = kept;
    }
}

/// Where a write starts on disk.
pub struct WriteStart {
    /// The file's first cluster (newly allocated for a file without one).
    pub start_cluster: u32,
    /// The cluster the first byte goes to.
    pub current_cluster: u32,
}

/// Where the next piece of a write lands in its cluster, and how long it is.
pub open spec fn span(logical: int, remaining: int, bpc: int) -> (int, int) {
    let oic = logical % bpc;
    (oic, if remaining < bpc - oic { remaining } else { bpc - oic })
}

/// The offset in its cluster of the byte at `logical`, and how many of the
/// `remaining` bytes fit in the rest of that cluster.
pub fn write_span(logical: u64, remaining: usize, bpc: usize) -> (r: (usize, usize))
    requires
        bpc > 0,
    ensures
        r.0 == span(logical as int, remaining as int, bpc as int).0,
        r.1 == span(logical as int, remaining as int, bpc as int).1,
        r.0 < bpc,
        r.1 <= remaining,
        r.0 + r.1 <= bpc,
        remaining > 0 ==> r.1 > 0,
{
    let oic = (logical % bpc as u64) as usize;
    let room = bpc - oic;
    let n = if remaining < room { remaining } else { room };
    (oic, n)
}

/// Whether a cluster has to be read before a piece of `n` bytes at `oic` is
/// written into it: the piece does not cover it from its start, or stops
/// short inside data the file already holds.
pub fn must_read_cluster(oic: usize, n: usize, bpc: usize, file_size: u64, logical: u64) -> (b: bool)
    ensures
        b == (oic > 0 || (n < bpc && file_size > logical)),
{
    oic > 0 || (n < bpc && file_size > logical)
}

/// The cluster after `current` in a file being written: the next one of its
/// chain, or a newly linked one at its end.
pub open spec fn next_write(g: Fat32Geometry, s: Seq<u32>, current: u32) -> (FilesystemResult<u32>, Seq<u32>) {
    match fat_read(g, s, current as int) {
        Err(e) => (Err(e), s),
        Ok(v) => if v >= FAT_EOC_MIN {
            super::table::allocate(g, s, Some(current))
        } else if !is_data_cluster(g, v as int) {
            (Err(FilesystemError::CorruptedFilesystem), s)
        } else {
            (Ok(v), s)
        },
    }
}

pub fn next_write_cluster(fat: &mut FatTable, current: u32) -> (r: FilesystemResult<u32>)
    requires
        old(fat).wf(),
    ensures
        same_volume(&*old(fat), &*final(fat)),
        (r, final(fat)@) == next_write(old(fat).geom(), old(fat)@, current),
{
    let v = match fat.read_fat_entry(current) {
        Ok(v) => v,
        Err(e) => {
            return Err(e);
        },
    };
    if v >= FAT_EOC_MIN {
        return fat.allocate_cluster(Some(current));
    }
    let g = fat.geometry();
    if v < 2 || v >= g.total_data_clusters + 2 {
        return Err(FilesystemError::CorruptedFilesystem);
    }
    Ok(v)
}

/// One piece of a write: `len` bytes of the data from `data_start` go to
/// offset `in_cluster` of `cluster`, which is read first when `read_first`.
#[derive(Debug, Clone, Copy, PartialEq, Eq, Structural)]
pub struct WritePiece {
    pub cluster: u32,
    pub in_cluster: usize,
    pub data_start: usize,
    pub len: usize,
    pub read_first: bool,
}

/// Piece `p` is the piece of a write of `total` bytes at `offset` that
/// starts `data_start` bytes into the data (see `span`, `must_read_cluster`).
pub open spec fn piece_at(p: WritePiece, offset: int, total: int, bpc: int, file_size: int) -> bool {
    let (oic, n) = span(offset + p.data_start, total - p.data_start, bpc);
    &&& p.data_start < total
    &&& p.in_cluster == oic
    &&& p.len == n
    &&& p.read_first == (oic > 0 || (n < bpc && file_size > offset + p.data_start))
}

/// The first pieces of a write of `total` bytes at `offset` into clusters of
/// `bpc` bytes, starting in cluster `first`: they follow one another through
/// the data from its start, and each next cluster is the one `next_write`
/// gives from the table as the previous step left it; `states[i]` is the
/// table before the step after piece `i`.
pub open spec fn pieces_so_far(
    g: Fat32Geometry,
    states: Seq<Seq<u32>>,
    ps: Seq<WritePiece>,
    first: u32,
    offset: int,
    total: int,
    file_size: int,
) -> bool {
    let bpc = g.cluster_bytes();
    &&& ps.len() >= 1
    &&& states.len() == ps.len()
    &&& ps[0].cluster == first
    &&& ps[0].data_start == 0
    &&& forall|i: int| 0 <= i < ps.len() ==> #[trigger] piece_at(ps[i], offset, total, bpc, file_size)
    &&& forall|i: int| 0 < i < ps.len() ==> #[trigger] ps[i].data_start == ps[i - 1].data_start + ps[i - 1].len
    &&& forall|i: int| 0 <= i < ps.len() - 1 ==> #[trigger] next_write(g, states[i], ps[i].cluster) == (
        Ok::<u32, FilesystemError>(ps[i + 1].cluster),
        states[i + 1],
    )
}

/// All the pieces of such a write: the first pieces, the last of which
/// ends the data.
pub open spec fn write_pieces(
    g: Fat32Geometry,
    states: Seq<Seq<u32>>,
    ps: Seq<WritePiece>,
    first: u32,
    offset: int,
    total: int,
    file_size: int,
) -> bool {
    &&& pieces_so_far(g, states, ps, first, offset, total, file_size)
    &&& ps.last().data_start + ps.last().len == total
}

/// Plans a write of `total` bytes at `offset` that starts in cluster
/// `first`: the pieces, cluster by cluster, linking new clusters to the
/// chain as it goes (see `write_pieces`). Gives the tables it went through,
/// the last being the table now, and the pieces planned. It fails only when
/// the step after the last planned piece fails, with that step's error.
#[verifier::rlimit(80)]
#[verifier::spinoff_prover]
pub fn plan_write(fat: &mut FatTable, first: u32, offset: u64, total: usize, file_size: u64) -> (r: (
    FilesystemResult<Vec<WritePiece>>,
    Ghost<Seq<Seq<u32>>>,
    Ghost<Seq<WritePiece>>,
))
    requires
        old(fat).wf(),
        0 < old(fat).geom().cluster_bytes() <= MAX_CLUSTER_BYTES,
        total > 0,
        offset + total <= u64::MAX,
    ensures
        same_volume(&*old(fat), &*final(fat)),
        r.1@[0] == old(fat)@,
        r.0 matches Ok(ps) ==> ps@ == r.2@ && write_pieces(old(fat).geom(), r.1@, ps@, first, offset as int, total as int, file_size as int)
            && r.1@.last() == final(fat)@,
        r.0 is Err ==> {
            let ps = r.2@;
            &&& pieces_so_far(old(fat).geom(), r.1@, ps, first, offset as int, total as int, file_size as int)
            &&& ps.last().data_start + ps.last().len < total
            &&& next_write(old(fat).geom(), r.1@.last(), ps.last().cluster) == (Err::<u32, FilesystemError>(r.0->Err_0), final(fat)@)
        },
{
    let ghost g = fat.geom();
    let bpc = cluster_bytes(&fat.geometry());
    let mut pieces: Vec<WritePiece> = Vec::new();
    let ghost mut states: Seq<Seq<u32>> = seq![fat@];
    let mut cluster = first;
    let mut done: usize = 0;
    loop
        invariant
            same_volume(&*old(fat), &*fat),
            g == old(fat).geom(),
            bpc == g.cluster_bytes(),
            0 < bpc <= MAX_CLUSTER_BYTES,
            total > 0,
            offset + total <= u64::MAX,
            done < total,
            states.len() == pieces@.len() + 1,
            states[0] == old(fat)@,
            states.last() == fat@,
            pieces@.len() == 0 ==> done == 0 && cluster == first,
            pieces@.len() > 0 ==> {
                &&& pieces@[0].cluster == first
                &&& pieces@[0].data_start == 0
                &&& pieces@.last().data_start + pieces@.last().len == done
                &&& next_write(g, states[pieces@.len() - 1], pieces@.last().cluster) == (
                    Ok::<u32, FilesystemError>(cluster),
                    states.last(),
                )
            },
            forall|i: int| 0 <= i < pieces@.len() ==> #[trigger] piece_at(pieces@[i], offset as int, total as int, bpc as int, file_size as int),
            forall|i: int| 0 < i < pieces@.len() ==> #[trigger] pieces@[i].data_start == pieces@[i - 1].data_start + pieces@[i - 1].len,
            forall|i: int| 0 <= i < pieces@.len() - 1 ==> #[trigger] next_write(g, states[i], pieces@[i].cluster) == (
                Ok::<u32, FilesystemError>(pieces@[i + 1].cluster),
                states[i + 1],
            ),
        decreases total - done,
    {
        let logical = offset + done as u64;
        let (in_cluster, n) = write_span(logical, total - done, bpc);
        let read_first = must_read_cluster(in_cluster, n, bpc, file_size, logical);
        let piece = WritePiece { cluster, in_cluster, data_start: done, len: n, read_first };
        let ghost before = pieces@;
        pieces.push(piece);
        proof {
            assert(pieces@.drop_last() == before);
            assert forall|i: int| 0 <= i < pieces@.len() implies #[trigger] piece_at(pieces@[i], offset as int, total as int, bpc as int, file_size as int) by {
                if i < before.len() {
                    assert(pieces@[i] == before[i]);
                }
            }
            assert forall|i: int| 0 < i < pieces@.len() implies #[trigger] pieces@[i].data_start == pieces@[i - 1].data_start + pieces@[i - 1].len by {
                if i < before.len() {
                    assert(pieces@[i] == before[i] && pieces@[i - 1] == before[i - 1]);
                } else {
                    assert(pieces@[i - 1] == before.last());
                }
            }
        }
        done = done + n;
        if done >= total {
            proof {
                assert forall|i: int| 0 <= i < pieces@.len() - 1 implies #[trigger] next_write(g, states[i], pieces@[i].cluster) == (
                    Ok::<u32, FilesystemError>(pieces@[i + 1].cluster),
                    states[i + 1],
                ) by {
                    if i < before.len() - 1 {
                        assert(pieces@[i] == before[i] && pieces@[i + 1] == before[i + 1]);
                    } else {
                        assert(pieces@[i] == before.last());
                    }
                }
            }
            let ghost planned = pieces@;
            return (Ok(pieces), Ghost(states), Ghost(planned));
        }
        let ghost prev_states = states;
        let next = next_write_cluster(fat, cluster);
        proof {
            states = states.push(fat@);
        }
        match next {
            Ok(c) => {
                proof {
                    assert forall|i: int| 0 <= i < pieces@.len() - 1 implies #[trigger] next_write(g, states[i], pieces@[i].cluster) == (
                        Ok::<u32, FilesystemError>(pieces@[i + 1].cluster),
                        states[i + 1],
                    ) by {
                        if i < before.len() - 1 {
                            assert(pieces@[i] == before[i] && pieces@[i + 1] == before[i + 1]);
                        } else {
                            assert(pieces@[i] == before.last());
                        }
                    }
                }
                cluster = c;
            },
            Err(e) => {
                proof {
                    states = prev_states;
                    assert(next_write(g, states.last(), cluster) == (Err::<u32, FilesystemError>(e), fat@));
                    assert(states.len() >= 1);
                    assert(states[0] == old(fat)@);
                    assert(g == old(fat).geom());
                    assert(exists|c: u32| #[trigger] next_write(old(fat).geom(), states.last(), c) == (Err::<u32, FilesystemError>(e), fat@));
                }
                let ghost planned = pieces@;
                let out: (FilesystemResult<Vec<WritePiece>>, Ghost<Seq<Seq<u32>>>, Ghost<Seq<WritePiece>>) = (Err(e), Ghost(states), Ghost(planned));
                proof {
                    assert(out.0 is Err);
                    assert(out.0->Err_0 == e);
                    assert(out.1@ == states);
                }
                return out;
            },
        }
    }
}

/// Checks the entry at `off` found for a file to delete and frees the
/// file's clusters; a directory is refused.
pub fn release_found_file(fat: &mut FatTable, cluster_data: &[u8], off: usize) -> (r: FilesystemResult<()>)
    requires
        old(fat).wf(),
        off + 32 <= cluster_data@.len(),
    ensures
        same_volume(&*old(fat), &*final(fat)),
        cluster_data@[off + 11] & super::dir::ATTR_DIRECTORY != 0 ==> r == Err::<(), FilesystemError>(FilesystemError::IoError)
            && final(fat)@ == old(fat)@,
        cluster_data@[off + 11] & super::dir::ATTR_DIRECTORY == 0 ==> {
            let start = entry_cluster(cluster_data@, off as int);
            &&& start < 2 ==> r is Ok && final(fat)@ == old(fat)@
            &&& start >= 2 ==> (r, final(fat)@) == super::table::free_cluster_chain_result(old(fat).geom(), old(fat)@, start as u32)
        },
{
    let _n = cluster_data.len();
    let attributes = cluster_data[off + 11];
    if attributes & super::dir::ATTR_DIRECTORY != 0 {
        return Err(FilesystemError::IoError);
    }
    let start = super::dir::read_entry_cluster(cluster_data, off);
    if start >= 2 {
        fat.free_cluster_chain(start)
    } else {
        Ok(())
    }
}

/// Checks the entry at `off` found for a directory to delete and gives the
/// directory's first cluster; a file, or a directory without clusters, is
/// refused.
pub fn check_found_directory(cluster_data: &[u8], off: usize) -> (r: FilesystemResult<u32>)
    requires
        off + 32 <= cluster_data@.len(),
    ensures
        cluster_data@[off + 11] & super::dir::ATTR_DIRECTORY == 0 ==> r == Err::<u32, FilesystemError>(FilesystemError::IoError),
        cluster_data@[off + 11] & super::dir::ATTR_DIRECTORY != 0 ==> {
            let start = entry_cluster(cluster_data@, off as int);
            &&& start < 2 ==> r == Err::<u32, FilesystemError>(FilesystemError::CorruptedFilesystem)
            &&& start >= 2 ==> r == Ok::<u32, FilesystemError>(start as u32)
        },
{
    let _n = cluster_data.len();
    let attributes = cluster_data[off + 11];
    if attributes & super::dir::ATTR_DIRECTORY == 0 {
        return Err(FilesystemError::IoError);
    }
    let start = super::dir::read_entry_cluster(cluster_data, off);
    if start < 2 {
        return Err(FilesystemError::CorruptedFilesystem);
    }
    Ok(start)
}

/// Where a walk along a directory's clusters stands: the slot sought is at
/// this offset of the cluster just scanned, or the walk goes on in cluster
/// `c`.
#[derive(Debug, Clone, Copy, PartialEq, Eq, Structural)]
pub enum DirWalk {
    Found(usize),
    Scan(u32),
}

/// One step of looking for the live entry named `name` in a directory:
/// `content` is its cluster `cluster`. The entry found ends the walk; the
/// end of the directory, or of its chain, is `missing`; otherwise the walk
/// goes on in the next cluster (see `next_directory_cluster`).
pub fn find_entry_step(fat: &FatTable, cluster: u32, content: &[u8], name: &[u8; 11], missing: FilesystemError) -> (r: FilesystemResult<DirWalk>)
    requires
        fat.wf(),
    ensures
        match super::dir::scan_name(content@, 0, content@.len() as int / 32, name@) {
            super::dir::NameScan::Found(o) => r == Ok::<DirWalk, FilesystemError>(DirWalk::Found(o)),
            super::dir::NameScan::End => r == Err::<DirWalk, FilesystemError>(missing),
            super::dir::NameScan::NotHere => match next_in_directory(fat.geom(), fat@, cluster) {
                Err(e) => r == Err::<DirWalk, FilesystemError>(e),
                Ok(Some(c)) => r == Ok::<DirWalk, FilesystemError>(DirWalk::Scan(c)),
                Ok(None) => r == Err::<DirWalk, FilesystemError>(missing),
            },
        },
{
    match super::dir::find_named_entry(content, content.len(), name) {
        super::dir::NameScan::Found(o) => Ok(DirWalk::Found(o)),
        super::dir::NameScan::End => Err(missing),
        super::dir::NameScan::NotHere => match next_directory_cluster(fat, cluster) {
            Err(e) => Err(e),
            Ok(Some(c)) => Ok(DirWalk::Scan(c)),
            Ok(None) => Err(missing),
        },
    }
}

/// One step of looking for a free slot in a directory: `content` is its
/// cluster `cluster`. A free slot ends the walk; at the end of the chain
/// the directory is full (`FilesystemFull`); otherwise the walk goes on in
/// the next cluster.
pub fn free_slot_step(fat: &FatTable, cluster: u32, content: &[u8]) -> (r: FilesystemResult<DirWalk>)
    requires
        fat.wf(),
    ensures
        match super::dir::first_free_slot(content@, 0, content@.len() as int / 32) {
            Some(o) => r == Ok::<DirWalk, FilesystemError>(DirWalk::Found(o as usize)),
            None => match next_in_directory(fat.geom(), fat@, cluster) {
                Err(e) => r == Err::<DirWalk, FilesystemError>(e),
                Ok(Some(c)) => r == Ok::<DirWalk, FilesystemError>(DirWalk::Scan(c)),
                Ok(None) => r == Err::<DirWalk, FilesystemError>(FilesystemError::FilesystemFull),
            },
        },
{
    match super::dir::find_free_slot(content, content.len()) {
        Some(o) => Ok(DirWalk::Found(o)),
        None => match next_directory_cluster(fat, cluster) {
            Err(e) => Err(e),
            Ok(Some(c)) => Ok(DirWalk::Scan(c)),
            Ok(None) => Err(FilesystemError::FilesystemFull),
        },
    }
}

/// What deleting a directory asks next: the scan of its cluster `c`, or
/// nothing, the directory having been deleted.
#[derive(Debug, Clone, Copy, PartialEq, Eq, Structural)]
pub enum DeleteNext {
    Scan(u32),
    Deleted,
}

/// One step of deleting the directory whose entry is at `off` of `dir` (a
/// cluster of its parent), given the scan of one of its clusters (see
/// `check_directory_cluster_empty`) and, when the scan goes on, the cluster
/// after it (see `next_directory_cluster`). A live entry other than "." and
/// ".." refuses the deletion, and nothing changes. When the directory ends
/// without one, its chain is freed and then its entry marked deleted.
/// Otherwise the next cluster is to be scanned.
pub fn delete_directory_step(
    fat: &mut FatTable,
    dir: &mut Vec<u8>,
    off: usize,
    scan: super::dir::EmptinessScan,
    next: Option<u32>,
) -> (r: FilesystemResult<DeleteNext>)
    requires
        old(fat).wf(),
        off + 32 <= old(dir)@.len(),
    ensures
        same_volume(&*old(fat), &*final(fat)),
        scan is Occupied ==> r == Err::<DeleteNext, FilesystemError>(FilesystemError::DirectoryNotEmpty)
            && final(fat)@ == old(fat)@ && final(dir)@ == old(dir)@,
        scan is Continue && next is Some ==> r == Ok::<DeleteNext, FilesystemError>(DeleteNext::Scan(next->0))
            && final(fat)@ == old(fat)@ && final(dir)@ == old(dir)@,
        scan is End || (scan is Continue && next is None) ==> {
            let (freed, s2) = super::table::free_cluster_chain_result(old(fat).geom(), old(fat)@, entry_cluster(old(dir)@, off as int) as u32);
            &&& final(fat)@ == s2
            &&& freed is Ok ==> r == Ok::<DeleteNext, FilesystemError>(DeleteNext::Deleted)
                && final(dir)@ == old(dir)@.update(off as int, super::dir::ENTRY_DELETED)
            &&& freed is Err ==> r == Err::<DeleteNext, FilesystemError>(freed->Err_0) && final(dir)@ == old(dir)@
        },
{
    match scan {
        super::dir::EmptinessScan::Occupied(_) => {
            return Err(FilesystemError::DirectoryNotEmpty);
        },
        super::dir::EmptinessScan::Continue => {
            if let Some(c) = next {
                return Ok(DeleteNext::Scan(c));
            }
        },
        super::dir::EmptinessScan::End => {},
    }
    let start = super::dir::read_entry_cluster(dir.as_slice(), off);
    match fat.free_cluster_chain(start) {
        Ok(()) => {},
        Err(e) => {
            return Err(e);
        },
    }
    super::dir::mark_entry_deleted(dir, off);
    Ok(DeleteNext::Deleted)
}

impl Fat32FileSystem {
    /// Checks that entries may be deleted, and gives the 8.3 name of `name`.
    pub fn prepare_delete(&self, name: &str) -> (r: FilesystemResult<[u8; 11]>)
        ensures
            !self.spec_mounted() ==> r == Err::<[u8; 11], FilesystemError>(FilesystemError::NotMounted),
            self.spec_mounted() ==> match fat_83(name@) {
                Ok(b) => r matches Ok(a) && a@ == b,
                Err(e) => r == Err::<[u8; 11], FilesystemError>(e),
            },
    {
        if !self.mounted {
            return Err(FilesystemError::NotMounted);
        }
        super::names::filename_to_fat_8_3(name)
    }

    /// The FAT side of truncating `file` to `new_size` bytes, and what its
    /// directory entry becomes.
    pub fn truncate_file(&self, fat: &mut FatTable, file: &FileEntry, new_size: u64) -> (r: FilesystemResult<TruncatePlan>)
        requires
            old(fat).wf(),
            old(fat).geom().cluster_bytes() > 0,
            new_size + old(fat).geom().cluster_bytes() <= u64::MAX,
        ensures
            same_volume(&*old(fat), &*final(fat)),
            !self.spec_mounted() ==> (r matches Err(e) && e == FilesystemError::NotMounted) && final(fat)@ == old(fat)@,
            self.spec_mounted() && file.is_directory ==> (r matches Err(e) && e == FilesystemError::IoError) && final(fat)@ == old(fat)@,
            self.spec_mounted() && !file.is_directory ==> {
                let (rs, s2) = truncate_chain_result(old(fat).geom(), old(fat)@, file.inode as u32, file.size as u64, new_size);
                &&& final(fat)@ == s2
                &&& match rs {
                    Err(e) => r matches Err(e2) && e2 == e,
                    Ok(added) => if new_size == file.size as u64 {
                        r matches Ok(p) && !p.update_entry && p.new_clusters@.len() == 0
                    } else {
                        match fat_83(bytes_as_chars(file.name@)) {
                            Err(e) => r matches Err(e2) && e2 == e,
                            Ok(n) => r matches Ok(p) && p.update_entry && p.new_clusters@ == added && p.entry_name@ == n
                                && p.new_size == new_size as u32 && p.clear_cluster == (new_size == 0),
                        }
                    },
                }
            },
    {
        if !self.mounted {
            return Err(FilesystemError::NotMounted);
        }
        if file.is_directory {
            return Err(FilesystemError::IoError);
        }
        let new_clusters = match fat.truncate_chain(file.inode as u32, file.size as u64, new_size) {
            Ok(v) => v,
            Err(e) => {
                return Err(e);
            },
        };
        if new_size == file.size as u64 {
            return Ok(TruncatePlan { update_entry: false, new_clusters, entry_name: [0x20u8; 11], new_size: 0, clear_cluster: false });
        }
        let entry_name = match fat_name_of_bytes(file.name.as_slice()) {
            Ok(n) => n,
            Err(e) => {
                return Err(e);
            },
        };
        Ok(TruncatePlan { update_entry: true, new_clusters, entry_name, new_size: new_size as u32, clear_cluster: new_size == 0 })
    }

    /// Checks a write of `data_len` bytes at `offset` into `file` and finds
    /// where it starts: only writes at the start or the end of a file are
    /// supported; a file without clusters gets its first one, and an append
    /// to a file that fills its last cluster starts in the cluster after it
    /// (linked on if need be). `Ok(None)`: nothing to write.
    pub fn prepare_write(&self, fat: &mut FatTable, file: &FileEntry, offset: u64, data_len: usize) -> (r: FilesystemResult<Option<WriteStart>>)
        requires
            old(fat).wf(),
        ensures
            same_volume(&*old(fat), &*final(fat)),
            !self.spec_mounted() ==> (r matches Err(e) && e == FilesystemError::NotMounted) && final(fat)@ == old(fat)@,
            self.spec_mounted() && file.is_directory ==> (r matches Err(e) && e == FilesystemError::IoError) && final(fat)@ == old(fat)@,
            self.spec_mounted() && !file.is_directory && old(fat).geom().cluster_bytes() == 0
                ==> (r matches Err(e) && e == FilesystemError::NotInitialized) && final(fat)@ == old(fat)@,
            self.spec_mounted() && !file.is_directory && old(fat).geom().cluster_bytes() > 0 ==> {
                let start = file.inode as u32;
                let g = old(fat).geom();
                let s = old(fat)@;
                &&& data_len == 0 ==> (r matches Ok(w) && w is None) && final(fat)@ == s
                &&& data_len > 0 && offset != 0 && offset != file.size as u64 ==> (r matches Err(e) && e == FilesystemError::IoError) && final(fat)@ == s
                &&& data_len > 0 && start == 0 && offset != 0 && offset == file.size as u64 ==> (r matches Err(e) && e == FilesystemError::IoError) && final(fat)@ == s
                &&& data_len > 0 && start == 0 && offset == 0 ==> {
                    let (ra, s2) = super::table::allocate(g, s, None);
                    &&& final(fat)@ == s2
                    &&& match ra {
                        Err(e) => r matches Err(e2) && e2 == e,
                        Ok(c) => if g.cluster_bytes() > MAX_CLUSTER_BYTES {
                            r matches Err(e) && e == FilesystemError::IoError
                        } else {
                            r matches Ok(Some(w)) && w.start_cluster == c && w.current_cluster == c
                        },
                    }
                }
                &&& data_len > 0 && start != 0 && offset == 0 ==> final(fat)@ == s && if g.cluster_bytes() > MAX_CLUSTER_BYTES {
                    r matches Err(e) && e == FilesystemError::IoError
                } else {
                    r matches Ok(Some(w)) && w.start_cluster == start && w.current_cluster == start
                }
                &&& data_len > 0 && start != 0 && offset != 0 && offset == file.size as u64 ==>
                    match super::table::chain_last(g, s, start as int, s.len()) {
                        Err(e) => (r matches Err(e2) && e2 == e) && final(fat)@ == s,
                        Ok(last) => if g.cluster_bytes() > MAX_CLUSTER_BYTES {
                            (r matches Err(e) && e == FilesystemError::IoError) && final(fat)@ == s
                        } else if offset % (g.cluster_bytes() as u64) != 0 {
                            (r matches Ok(Some(w)) && w.start_cluster == start && w.current_cluster == last) && final(fat)@ == s
                        } else {
                            // The last cluster is full: the write starts in the next one.
                            let (rn, s2) = next_write(g, s, last as u32);
                            &&& final(fat)@ == s2
                            &&& match rn {
                                Err(e) => r matches Err(e2) && e2 == e,
                                Ok(c) => r matches Ok(Some(w)) && w.start_cluster == start && w.current_cluster == c,
                            }
                        },
                    }
            },
    {
        if !self.mounted {
            return Err(FilesystemError::NotMounted);
        }
        if file.is_directory {
            return Err(FilesystemError::IoError);
        }
        let g = fat.geometry();
        let bpc = cluster_bytes(&g);
        if bpc == 0 {
            return Err(FilesystemError::NotInitialized);
        }
        if data_len == 0 {
            return Ok(None);
        }
        let size = file.size as u64;
        let mut start = file.inode as u32;
        if offset != 0 && offset != size {
            return Err(FilesystemError::IoError);
        }
        let mut current = if start == 0 {
            if offset != 0 {
                return Err(FilesystemError::IoError);
            }
            let first = match fat.allocate_cluster(None) {
                Ok(c) => c,
                Err(e) => {
                    return Err(e);
                },
            };
            start = first;
            first
        } else {
            start
        };
        if offset > 0 && start != 0 {
            current = match fat.last_of_chain(start) {
                Ok(c) => c,
                Err(e) => {
                    return Err(e);
                },
            };
        }
        if bpc > MAX_CLUSTER_BYTES {
            return Err(FilesystemError::IoError);
        }
        if offset > 0 && offset % (bpc as u64) == 0 {
            current = match next_write_cluster(fat, current) {
                Ok(c) => c,
                Err(e) => {
                    return Err(e);
                },
            };
        }
        Ok(Some(WriteStart { start_cluster: start, current_cluster: current }))
    }
}

/// Clusters needed for `size` bytes in clusters of `bpc` bytes.
pub open spec fn clusters_for(size: int, bpc: int) -> int {
    if size % bpc == 0 { size / bpc } else { size / bpc + 1 }
}

/// The clusters holding `file`'s content, in order: as many as its size
/// needs, along its chain in the FAT. A file without a first cluster has
/// none.
pub fn content_clusters(fat: &FatTable, file: &FileEntry) -> (r: FilesystemResult<Vec<u32>>)
    requires
        fat.wf(),
    ensures
        ({
            let g = fat.geom();
            let start = file.inode as u32;
            let count = clusters_for(file.size as int, g.cluster_bytes());
            &&& g.cluster_bytes() == 0 ==> r == Err::<Vec<u32>, FilesystemError>(FilesystemError::NotInitialized)
            &&& g.cluster_bytes() > 0 && start < 2 ==> (r matches Ok(v) && v@.len() == 0)
            &&& g.cluster_bytes() > 0 && start >= 2 ==> match r {
                Ok(v) => v@.len() == count && forall|k: int| 0 <= k < count
                    ==> super::table::follow(g, fat@, start as int, k as nat) == Ok::<u32, FilesystemError>(#[trigger] v@[k]),
                Err(e) => exists|k: int| 0 < k < count && #[trigger] super::table::follow(g, fat@, start as int, k as nat)
                    == Err::<u32, FilesystemError>(e),
            }
        }),
{
    let g = fat.geometry();
    let bpc = cluster_bytes(&g);
    if bpc == 0 {
        return Err(FilesystemError::NotInitialized);
    }
    let start = file.inode as u32;
    if start < 2 {
        return Ok(Vec::new());
    }
    let count = if file.size % bpc == 0 {
        file.size / bpc
    } else {
        proof {
            assert(bpc >= 2);
            assert(file.size / bpc < usize::MAX) by (nonlinear_arith)
                requires
                    bpc >= 2,
                    file.size <= usize::MAX,
            ;
        }
        file.size / bpc + 1
    };
    fat.chain_clusters(start, count)
}

/// A file's content from the bytes of its clusters, read in order: as many
/// as the file holds, at most as many as were read.
pub fn file_content(file: &FileEntry, data: &[u8]) -> (r: Vec<u8>)
    ensures
        r@ == data@.take(if file.size < data@.len() { file.size as int } else { data@.len() as int }),
{
    let n = if file.size < data.len() { file.size } else { data.len() };
    let mut r: Vec<u8> = Vec::new();
    let mut i: usize = 0;
    while i < n
        invariant
            n <= data@.len(),
            i <= n,
            r@ == data@.take(i as int),
        decreases n - i,
    {
        r.push(data[i]);
        i = i + 1;
        assert(r@ =~= data@.take(i as int));
    }
    r
}

/// Copies as much of `content` as fits into `buffer`; gives the count.
pub fn copy_into(content: &[u8], buffer: &mut [u8]) -> (n: usize)
    ensures
        n == if content@.len() < old(buffer)@.len() { content@.len() } else { old(buffer)@.len() },
        final(buffer)@.len() == old(buffer)@.len(),
        final(buffer)@.take(n as int) == content@.take(n as int),
        final(buffer)@.skip(n as int) == old(buffer)@.skip(n as int),
{
    let n = if content.len() < buffer.len() { content.len() } else { buffer.len() };
    let mut i: usize = 0;
    while i < n
        invariant
            n <= content@.len(),
            n <= buffer@.len(),
            buffer@.len() == old(buffer)@.len(),
            i <= n,
            forall|k: int| 0 <= k < i ==> buffer@[k] == content@[k],
            forall|k: int| i <= k < buffer@.len() ==> buffer@[k] == old(buffer)@[k],
        decreases n - i,
    {
        buffer[i] = content[i];
        i = i + 1;
    }
    assert(buffer@.take(n as int) =~= content@.take(n as int));
    assert(buffer@.skip(n as int) =~= old(buffer)@.skip(n as int));
    n
}

/// The 8.3 name and new size of `file`'s entry after `written` bytes were
/// written at `offset` (the larger of its size and the write's end).
pub fn written_entry(file: &FileEntry, offset: u64, written: usize) -> (r: FilesystemResult<([u8; 11], u32)>)
    requires
        offset + written <= u64::MAX,
    ensures
        match fat_83(bytes_as_chars(file.name@)) {
            Err(e) => r == Err::<([u8; 11], u32), FilesystemError>(e),
            Ok(n) => r matches Ok((a, size)) && a@ == n && size == (if file.size >= offset + written {
                file.size as int
            } else {
                offset + written
            }) as u32,
        },
{
    let end = offset + written as u64;
    let size = file.size as u64;
    let new_size = if size >= end { size } else { end };
    match fat_name_of_bytes(file.name.as_slice()) {
        Ok(n) => Ok((n, new_size as u32)),
        Err(e) => Err(e),
    }
}

} // verus!
