//! A tree of named directories and files with byte content, as a test
//! fixture mirrors it on disk.
use crate::fs_error::FsTestError;
use vstd::prelude::*;
use vstd::std_specs::cmp::PartialEqSpec;
use vstd::utf8::encode_utf8;

verus! {

/// How an existing file is opened when a node is written over it; a plain
/// copy of the flags of `std::fs::OpenOptions`.
#[derive(Clone, Copy, Debug, PartialEq, Eq, Structural)]
pub struct OpenMode {
    pub read: bool,
    pub write: bool,
    pub append: bool,
    pub truncate: bool,
    pub create: bool,
    pub create_new: bool,
}

/// A directory with its entries, or a file with its content.
#[derive(Debug)]
pub enum FileNode {
    Dir { name: String, sub: Vec<FileNode> },
    File { name: String, open_options: Option<OpenMode>, content: Vec<u8> },
}

/// The name of a node.
pub open spec fn name_view(n: FileNode) -> Seq<char> {
    match n {
        FileNode::Dir { name, .. } => name@,
        FileNode::File { name, .. } => name@,
    }
}

/// The key that entries are ordered by: the UTF-8 bytes of the name.
pub open spec fn sort_key(n: FileNode) -> Seq<u8> {
    encode_utf8(name_view(n))
}

/// Lexicographic order on byte strings, as `str`'s `Ord` compares.
pub open spec fn bytes_lt(a: Seq<u8>, b: Seq<u8>) -> bool
    decreases a.len(),
{
    if b.len() == 0 {
        false
    } else if a.len() == 0 {
        true
    } else if a[0] != b[0] {
        a[0] < b[0]
    } else {
        bytes_lt(a.drop_first(), b.drop_first())
    }
}

/// Entry `j` comes before entry `i` in the stable order by name: a smaller
/// name, or the same name at an earlier position.
pub open spec fn comes_before(s: Seq<FileNode>, j: int, i: int) -> bool {
    bytes_lt(sort_key(s[j]), sort_key(s[i])) || (sort_key(s[j]) == sort_key(s[i]) && j < i)
}

/// How many of the first `m` entries come before entry `i`.
pub open spec fn count_before(s: Seq<FileNode>, i: int, m: int) -> nat
    decreases m,
{
    if m <= 0 {
        0
    } else {
        count_before(s, i, m - 1) + if comes_before(s, m - 1, i) {
            1nat
        } else {
            0nat
        }
    }
}

/// The position of entry `i` once the entries are sorted stably by name.
pub open spec fn rank(s: Seq<FileNode>, i: int) -> nat {
    count_before(s, i, s.len() as int)
}

/// Equality of trees up to the order of directory entries: files are equal
/// by name and content; directories by name and by their entries, taken in
/// the stable order by name and compared position by position.
pub open spec fn tree_eq(a: FileNode, b: FileNode) -> bool
    decreases a,
{
    match a {
        FileNode::File { name, content, .. } => match b {
            FileNode::File { name: n2, content: c2, .. } => name@ == n2@ && content@ == c2@,
            FileNode::Dir { .. } => false,
        },
        FileNode::Dir { name, sub } => match b {
            FileNode::Dir { name: n2, sub: s2 } => {
                &&& name@ == n2@
                &&& sub@.len() == s2@.len()
                &&& forall|i: int, j: int|
                    #![trigger rank(sub@, i), rank(s2@, j)]
                    0 <= i < sub@.len() && 0 <= j < s2@.len() && rank(sub@, i) == rank(s2@, j)
                        ==> tree_eq(sub@[i], s2@[j])
            },
            FileNode::File { .. } => false,
        },
    }
}

fn key_of(n: &FileNode) -> (r: &[u8])
    ensures
        r@ == sort_key(*n),
{
    match n {
        FileNode::Dir { name, .. } => name.as_str().as_bytes(),
        FileNode::File { name, .. } => name.as_str().as_bytes(),
    }
}

fn bytes_less(a: &[u8], b: &[u8]) -> (r: bool)
    ensures
        r == bytes_lt(a@, b@),
{
    let mut i: usize = 0;
    assert(a@.subrange(0, a@.len() as int) =~= a@);
    assert(b@.subrange(0, b@.len() as int) =~= b@);
    while i < a.len() && i < b.len() && a[i] == b[i]
        invariant
            0 <= i <= a@.len(),
            i <= b@.len(),
            bytes_lt(a@, b@) == bytes_lt(a@.subrange(i as int, a@.len() as int), b@.subrange(
                i as int,
                b@.len() as int,
            )),
        decreases a@.len() - i,
    {
        let ghost sa = a@.subrange(i as int, a@.len() as int);
        let ghost sb = b@.subrange(i as int, b@.len() as int);
        assert(sa.drop_first() =~= a@.subrange(i + 1, a@.len() as int));
        assert(sb.drop_first() =~= b@.subrange(i + 1, b@.len() as int));
        i = i + 1;
    }
    if i == b.len() {
        false
    } else if i == a.len() {
        true
    } else {
        a[i] < b[i]
    }
}

fn ranks(s: &Vec<FileNode>) -> (r: Vec<usize>)
    ensures
        r@.len() == s@.len(),
        forall|i: int| 0 <= i < s@.len() ==> r@[i] == rank(s@, i),
{
    let mut r: Vec<usize> = Vec::new();
    let mut i: usize = 0;
    while i < s.len()
        invariant
            0 <= i <= s@.len(),
            r@.len() == i,
            forall|k: int| 0 <= k < i ==> r@[k] == rank(s@, k),
        decreases s@.len() - i,
    {
        let ki = key_of(&s[i]);
        let mut c: usize = 0;
        let mut j: usize = 0;
        while j < s.len()
            invariant
                0 <= j <= s@.len(),
                0 <= i < s@.len(),
                ki@ == sort_key(s@[i as int]),
                c == count_before(s@, i as int, j as int),
                c <= j,
            decreases s@.len() - j,
        {
            let kj = key_of(&s[j]);
            let before = bytes_less(kj, ki) || (slices_equal(kj, ki) && j < i);
            if before {
                c = c + 1;
            }
            j = j + 1;
        }
        r.push(c);
        i = i + 1;
    }
    r
}

fn slices_equal(a: &[u8], b: &[u8]) -> (r: bool)
    ensures
        r == (a@ == b@),
{
    if a.len() != b.len() {
        return false;
    }
    let mut i: usize = 0;
    while i < a.len()
        invariant
            a@.len() == b@.len(),
            0 <= i <= a@.len(),
            forall|k: int| 0 <= k < i ==> a@[k] == b@[k],
        decreases a@.len() - i,
    {
        if a[i] != b[i] {
            return false;
        }
        i = i + 1;
    }
    assert(a@ =~= b@);
    true
}

impl FileNode {
    /// An empty directory named `name`.
    pub fn new_dir(name: &str) -> (r: Self)
        ensures
            r matches FileNode::Dir { name: n, sub } && n@ == name@ && sub@.len() == 0,
    {
        FileNode::Dir { name: String::from_str(name), sub: Vec::new() }
    }

    /// A file named `name` holding `content`, opened with the default mode.
    pub fn new_file(name: &str, content: Vec<u8>) -> (r: Self)
        ensures
            r matches FileNode::File { name: n, open_options, content: c } && n@ == name@
                && open_options is None && c@ == content@,
    {
        FileNode::File { name: String::from_str(name), open_options: None, content }
    }

    /// The name of the node.
    pub fn get_name(&self) -> (r: &str)
        ensures
            r@ == name_view(*self),
    {
        match self {
            FileNode::Dir { name, .. } => name.as_str(),
            FileNode::File { name, .. } => name.as_str(),
        }
    }

    /// Whether two trees are equal up to the order of directory entries.
    pub fn same_tree(&self, other: &FileNode) -> (r: bool)
        ensures
            r == tree_eq(*self, *other),
        decreases self,
    {
        match self {
            FileNode::File { name, content, .. } => match other {
                FileNode::File { name: n2, content: c2, .. } => {
                    let same_name = *name == *n2;
                    let same_content = slices_equal(content.as_slice(), c2.as_slice());
                    same_name && same_content
                },
                FileNode::Dir { .. } => false,
            },
            FileNode::Dir { name, sub } => match other {
                FileNode::Dir { name: n2, sub: s2 } => {
                    if *name != *n2 || sub.len() != s2.len() {
                        return false;
                    }
                    let r1 = ranks(sub);
                    let r2 = ranks(s2);
                    let mut i: usize = 0;
                    while i < sub.len()
                        invariant
                            0 <= i <= sub@.len(),
                            *self == (FileNode::Dir { name: *name, sub: *sub }),
                            *other == (FileNode::Dir { name: *n2, sub: *s2 }),
                            name@ == n2@,
                            sub@.len() == s2@.len(),
                            r1@.len() == sub@.len(),
                            r2@.len() == s2@.len(),
                            forall|k: int| 0 <= k < sub@.len() ==> r1@[k] == rank(sub@, k),
                            forall|k: int| 0 <= k < s2@.len() ==> r2@[k] == rank(s2@, k),
                            forall|a: int, b: int|
                                0 <= a < i && 0 <= b < s2@.len() && rank(sub@, a) == rank(s2@, b)
                                    ==> #[trigger] tree_eq(sub@[a], s2@[b]),
                        decreases sub@.len() - i,
                    {
                        let mut j: usize = 0;
                        while j < s2.len()
                            invariant
                                0 <= i < sub@.len(),
                                0 <= j <= s2@.len(),
                                *self == (FileNode::Dir { name: *name, sub: *sub }),
                                *other == (FileNode::Dir { name: *n2, sub: *s2 }),
                                name@ == n2@,
                                sub@.len() == s2@.len(),
                                r1@.len() == sub@.len(),
                                r2@.len() == s2@.len(),
                                forall|k: int| 0 <= k < sub@.len() ==> r1@[k] == rank(sub@, k),
                                forall|k: int| 0 <= k < s2@.len() ==> r2@[k] == rank(s2@, k),
                                forall|a: int, b: int|
                                    0 <= a < i && 0 <= b < s2@.len() && rank(sub@, a) == rank(s2@, b)
                                        ==> #[trigger] tree_eq(sub@[a], s2@[b]),
                                forall|b: int|
                                    0 <= b < j && rank(sub@, i as int) == rank(s2@, b)
                                        ==> #[trigger] tree_eq(sub@[i as int], s2@[b]),
                            decreases s2@.len() - j,
                        {
                            if r1[i] == r2[j] {
                                proof {
                                    assert(decreases_to!(*self => self->sub));
                                    assert(decreases_to!(*sub => sub@));
                                    assert(decreases_to!(sub@ => sub@[i as int]));
                                }
                                if !sub[i].same_tree(&s2[j]) {
                                    return false;
                                }
                            }
                            j = j + 1;
                        }
                        i = i + 1;
                    }
                    assert forall|a: int, b: int|
                        #![trigger rank(sub@, a), rank(s2@, b)]
                        0 <= a < sub@.len() && 0 <= b < s2@.len() && rank(sub@, a) == rank(s2@, b)
                            implies tree_eq(sub@[a], s2@[b]) by {
                        assert(tree_eq(sub@[a], s2@[b]));
                    }
                    true
                },
                FileNode::File { .. } => false,
            },
        }
    }
}

/// The mode in which writing a file node opens its file: a new file is
/// created for writing (and truncated); an existing one is opened with the
/// node's own mode, or for writing only.
pub fn write_mode(node_mode: Option<OpenMode>, exists: bool) -> (r: OpenMode)
    ensures
        !exists ==> r == (OpenMode {
            read: false,
            write: true,
            append: false,
            truncate: true,
            create: true,
            create_new: false,
        }),
        exists && node_mode is Some ==> r == node_mode->0,
        exists && node_mode is None ==> r == (OpenMode {
            read: false,
            write: true,
            append: false,
            truncate: false,
            create: false,
            create_new: false,
        }),
{
    if !exists {
        OpenMode { read: false, write: true, append: false, truncate: true, create: true, create_new: false }
    } else {
        match node_mode {
            Some(m) => m,
            None => OpenMode {
                read: false,
                write: true,
                append: false,
                truncate: false,
                create: false,
                create_new: false,
            },
        }
    }
}

impl FileNode {
    /// Whether the node can be read from a path of the given kind: a
    /// directory node needs a directory, a file node a regular file.
    pub fn check_source(&self, is_dir: bool, is_file: bool) -> (r: Result<(), FsTestError>)
        ensures
            *self is Dir ==> (if is_dir {
                r is Ok
            } else {
                r matches Err(FsTestError::NeedDir)
            }),
            *self is File ==> (if is_file {
                r is Ok
            } else {
                r matches Err(FsTestError::NeedFile)
            }),
    {
        match self {
            FileNode::Dir { .. } => if is_dir {
                Ok(())
            } else {
                Err(FsTestError::NeedDir)
            },
            FileNode::File { .. } => if is_file {
                Ok(())
            } else {
                Err(FsTestError::NeedFile)
            },
        }
    }
}

impl PartialEq for FileNode {
    fn eq(&self, other: &FileNode) -> (r: bool) {
        self.same_tree(other)
    }
}

impl vstd::std_specs::cmp::PartialEqSpecImpl for FileNode {
    open spec fn obeys_eq_spec() -> bool {
        true
    }

    open spec fn eq_spec(&self, other: &FileNode) -> bool {
        tree_eq(*self, *other)
    }
}

} // verus!
