//! Naming conventions: where the main, backup and temporary files of a
//! dataset live.

use vstd::prelude::*;

use crate::decimal::{decimal, decimal_string};

verus! {

/// `name` placed under the directory `dir`, as joining a path does: a name
/// that starts with `/` stands alone; otherwise it follows `dir`, with one `/`
/// between them unless `dir` is empty or already ends in `/`.
pub open spec fn join_path(dir: Seq<char>, name: Seq<char>) -> Seq<char> {
    if name.len() > 0 && name[0] == '/' {
        name
    } else if dir.len() == 0 || dir.last() == '/' {
        dir + name
    } else {
        dir + seq!['/'] + name
    }
}

/// The suffix that every name gains when the files are compressed.
pub open spec fn compressed_suffix() -> Seq<char> {
    seq!['.', 'g', 'z']
}

/// The token that names the backup file.
pub open spec fn backup_token() -> Seq<char> {
    seq!['b', 'a', 'k']
}

/// `base.token`, followed by the compressed suffix when `compressed` holds.
pub open spec fn file_name(base: Seq<char>, token: Seq<char>, compressed: bool) -> Seq<char> {
    base + seq!['.'] + token + if compressed {
        compressed_suffix()
    } else {
        Seq::<char>::empty()
    }
}

/// The configuration of a naming scheme, as values.
pub struct NamingView {
    pub dir: Seq<char>,
    pub base: Seq<char>,
    pub ext: Seq<char>,
    pub compressed: bool,
}

impl NamingView {
    /// The path of the file whose name carries `token`.
    pub open spec fn name_path(self, token: Seq<char>) -> Seq<char> {
        join_path(self.dir, file_name(self.base, token, self.compressed))
    }
}

/// A scheme that names the files of one dataset: the main file, the backup
/// file, and the candidate temporary file for each counter value.
pub trait NamingConvention {
    /// The path of the main file.
    spec fn main_path(&self) -> Seq<char>;

    /// The path of the backup file.
    spec fn backup_path(&self) -> Seq<char>;

    /// The path of the temporary file numbered `n`.
    spec fn temp_path(&self, n: nat) -> Seq<char>;

    /// Returns the path of the main file.
    fn main_file(&self) -> (r: String)
        ensures
            r@ == self.main_path(),
    ;

    /// Returns the path of the backup file.
    fn backup_file(&self) -> (r: String)
        ensures
            r@ == self.backup_path(),
    ;

    /// Returns the path of the temporary file numbered `n`.
    fn temp_name(&self, n: u64) -> (r: String)
        ensures
            r@ == self.temp_path(n as nat),
    ;
}

/// Names made of a base name: the main file carries a chosen extension, the
/// backup file `.bak`, the temporary files `.0`, `.1`, ...; when compressed,
/// each name gains `.gz`.
pub struct SimpleNaming {
    // The directory that holds the files.
    path: String,
    // The base name shared by all the files.
    base: String,
    // The extension of the main file.
    ext: String,
    // Whether the names mark the files as compressed.
    compressed: bool,
}

impl View for SimpleNaming {
    type V = NamingView;

    closed spec fn view(&self) -> NamingView {
        NamingView {
            dir: self.path@,
            base: self.base@,
            ext: self.ext@,
            compressed: self.compressed,
        }
    }
}

fn join(dir: &str, name: String) -> (r: String)
    ensures
        r@ == join_path(dir@, name@),
{
    if name.as_str().unicode_len() > 0 && name.as_str().get_char(0) == '/' {
        return name;
    }
    let dlen = dir.unicode_len();
    let mut r = String::from_str(dir);
    if dlen > 0 && dir.get_char(dlen - 1) != '/' {
        proof {
            reveal_strlit("/");
        }
        r.append("/");
    }
    r.append(name.as_str());
    r
}

impl SimpleNaming {
    /// A scheme for the files named `base` under the directory `path`, the
    /// main one with extension `ext`.
    pub fn new(path: &str, base: &str, ext: &str, compressed: bool) -> (r: SimpleNaming)
        ensures
            r@.dir == path@,
            r@.base == base@,
            r@.ext == ext@,
            r@.compressed == compressed,
    {
        SimpleNaming {
            path: String::from_str(path),
            base: String::from_str(base),
            ext: String::from_str(ext),
            compressed: compressed,
        }
    }

    /// Returns the path of the file whose name carries `ext`:
    /// `path/base.ext`, with `.gz` after it when compressed.
    pub fn make_name(&self, ext: &str) -> (r: String)
        ensures
            r@ == self@.name_path(ext@),
    {
        proof {
            reveal_strlit(".");
            reveal_strlit(".gz");
        }
        let mut name = self.base.clone();
        name.append(".");
        name.append(ext);
        if self.compressed {
            name.append(".gz");
        }
        assert(name@ =~= file_name(self@.base, ext@, self@.compressed));
        join(self.path.as_str(), name)
    }
}

impl NamingConvention for SimpleNaming {
    open spec fn main_path(&self) -> Seq<char> {
        self@.name_path(self@.ext)
    }

    open spec fn backup_path(&self) -> Seq<char> {
        self@.name_path(backup_token())
    }

    open spec fn temp_path(&self, n: nat) -> Seq<char> {
        self@.name_path(decimal(n))
    }

    fn main_file(&self) -> (r: String) {
        self.make_name(self.ext.as_str())
    }

    fn backup_file(&self) -> (r: String) {
        proof {
            reveal_strlit("bak");
        }
        let r = self.make_name("bak");
        assert("bak"@ =~= backup_token());
        r
    }

    fn temp_name(&self, n: u64) -> (r: String) {
        let token = decimal_string(n);
        self.make_name(token.as_str())
    }
}

proof fn lemma_name_path_suffix(dir: Seq<char>, base: Seq<char>, token: Seq<char>)
    ensures
        join_path(dir, file_name(base, token, true)) == join_path(dir, file_name(base, token, false))
            + compressed_suffix(),
{
    let plain = file_name(base, token, false);
    let packed = file_name(base, token, true);
    assert(plain =~= base + seq!['.'] + token);
    assert(packed =~= plain + compressed_suffix());
    assert(plain.len() > 0);
    assert(packed[0] == plain[0]);
    if plain[0] == '/' {
    } else if dir.len() == 0 || dir.last() == '/' {
        assert(dir + packed =~= dir + plain + compressed_suffix());
    } else {
        assert(dir + seq!['/'] + packed =~= dir + seq!['/'] + plain + compressed_suffix());
    }
}

/// The paths of a simple scheme depend on its configuration alone: schemes
/// with one configuration name the same main, backup and temporary files, so
/// repeated calls on one scheme return the same paths.
pub proof fn lemma_paths_deterministic(a: SimpleNaming, b: SimpleNaming)
    requires
        a@ == b@,
    ensures
        a.main_path() == b.main_path(),
        a.backup_path() == b.backup_path(),
        forall|n: nat| #[trigger] a.temp_path(n) == b.temp_path(n),
{
}

/// Turning compression on appends the compressed suffix to the main path, the
/// backup path and every temporary path, and changes nothing else in them.
pub proof fn lemma_compressed_adds_suffix(plain: SimpleNaming, packed: SimpleNaming)
    requires
        plain@.dir == packed@.dir,
        plain@.base == packed@.base,
        plain@.ext == packed@.ext,
        !plain@.compressed,
        packed@.compressed,
    ensures
        packed.main_path() == plain.main_path() + compressed_suffix(),
        packed.backup_path() == plain.backup_path() + compressed_suffix(),
        forall|n: nat| #[trigger]
            packed.temp_path(n) == plain.temp_path(n) + compressed_suffix(),
{
    let dir = plain@.dir;
    let base = plain@.base;
    lemma_name_path_suffix(dir, base, plain@.ext);
    lemma_name_path_suffix(dir, base, backup_token());
    assert forall|n: nat| #[trigger]
        packed.temp_path(n) == plain.temp_path(n) + compressed_suffix() by {
        lemma_name_path_suffix(dir, base, decimal(n));
    }
}

} // verus!
