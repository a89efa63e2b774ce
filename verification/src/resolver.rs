//! Resolution of referenced file names: the root document's own content,
//! and the ordered search paths for catalog parts.

use vstd::prelude::*;

use crate::text::str_eq;

verus! {

use vstd::string::{StrSliceExecFns, StringExecFns};

/// A byte-order mark is dropped from the front of a root document; anything
/// else is kept whole.
pub open spec fn without_bom(data: Seq<u8>) -> Seq<u8> {
    if data.len() >= 3 && data[0] == 0xEF && data[1] == 0xBB && data[2] == 0xBF {
        data.skip(3)
    } else {
        data
    }
}

/// Drops a leading byte-order mark, as [`without_bom`] says.
pub fn strip_bom(data: Vec<u8>) -> (r: Vec<u8>)
    ensures
        r@ == without_bom(data@),
{
    if data.len() >= 3 && data[0] == 0xEF && data[1] == 0xBB && data[2] == 0xBF {
        let mut out: Vec<u8> = Vec::new();
        let mut i: usize = 3;
        while i < data.len()
            invariant
                3 <= i <= data@.len(),
                data@.len() >= 3,
                out@ == data@.subrange(3, i as int),
            decreases data@.len() - i,
        {
            out.push(data[i]);
            i = i + 1;
            proof {
                assert(out@ =~= data@.subrange(3, i as int));
            }
        }
        proof {
            assert(out@ =~= without_bom(data@));
        }
        out
    } else {
        data
    }
}

/// The sub-directory, relative to its base, that the catalog search visits
/// at the given rank, from the custom parts first through the official
/// primitives in falling quality order to the unofficial ones.
pub open spec fn search_subdir(i: int) -> Seq<char> {
    if i == 0 {
        "/parts/"@
    } else if i == 1 {
        "/parts/"@
    } else if i == 2 {
        "/p/"@
    } else if i == 3 {
        "/p/8/"@
    } else if i == 4 {
        "/p/48/"@
    } else if i == 5 {
        "/p/4/"@
    } else if i == 6 {
        "/UnOfficial/parts/"@
    } else if i == 7 {
        "/UnOfficial/p/"@
    } else if i == 8 {
        "/UnOfficial/p/8/"@
    } else if i == 9 {
        "/UnOfficial/p/48/"@
    } else {
        "/UnOfficial/p/4/"@
    }
}

/// The full candidate path at a given rank: the custom base serves only the
/// first rank, the catalog base all others.
pub open spec fn candidate_at(custom: Seq<char>, ldraw: Seq<char>, name: Seq<char>, i: int) -> Seq<
    char,
> {
    if i == 0 {
        custom + search_subdir(i) + name
    } else {
        ldraw + search_subdir(i) + name
    }
}

/// Holds the root document's content and file name, and says where every
/// other referenced file may be found, in priority order.
pub struct Resolver {
    root: Vec<u8>,
    root_filename: String,
}

impl Resolver {
    /// The root document's content, after byte-order-mark removal.
    pub closed spec fn spec_root(self) -> Seq<u8> {
        self.root@
    }

    /// The root document's file name.
    pub closed spec fn spec_root_filename(self) -> Seq<char> {
        self.root_filename@
    }

    /// A resolver for a root document already read from its container; a
    /// leading byte-order mark is dropped from the content.
    pub fn new(contents: Vec<u8>, root_filename: String) -> (r: Resolver)
        ensures
            r.spec_root() == without_bom(contents@),
            r.spec_root_filename() == root_filename@,
    {
        Resolver { root: strip_bom(contents), root_filename }
    }

    /// The root document's content when the requested name is the root's
    /// own; any other name must be found on the search paths.
    pub fn resolve_root(&self, filename: &str) -> (r: Option<Vec<u8>>)
        ensures
            match r {
                Some(data) => filename@ == self.spec_root_filename() && data@ == self.spec_root(),
                None => filename@ != self.spec_root_filename(),
            },
    {
        if str_eq(filename, self.root_filename.as_str()) {
            let mut out: Vec<u8> = Vec::new();
            let mut i: usize = 0;
            while i < self.root.len()
                invariant
                    i <= self.root@.len(),
                    out@ == self.root@.subrange(0, i as int),
                decreases self.root@.len() - i,
            {
                out.push(self.root[i]);
                i = i + 1;
                proof {
                    assert(out@ =~= self.root@.subrange(0, i as int));
                }
            }
            proof {
                assert(out@ =~= self.root@);
            }
            Some(out)
        } else {
            None
        }
    }

    /// The full candidate paths for a referenced file, in the priority
    /// order the search visits them: the custom parts directory first, then
    /// the official catalog's parts and primitives from normal down to the
    /// coarsest quality, then the unofficial mirrors of each.
    pub fn candidate_paths(custom_base: &str, ldraw_base: &str, filename: &str) -> (r: Vec<String>)
        ensures
            r@.len() == 11,
            forall|i: int|
                0 <= i < 11 ==> #[trigger] r@[i]@ == candidate_at(
                    custom_base@,
                    ldraw_base@,
                    filename@,
                    i,
                ),
    {
        let mut out: Vec<String> = Vec::new();
        out.push(custom_base.to_owned().concat("/parts/").concat(filename));
        out.push(ldraw_base.to_owned().concat("/parts/").concat(filename));
        out.push(ldraw_base.to_owned().concat("/p/").concat(filename));
        out.push(ldraw_base.to_owned().concat("/p/8/").concat(filename));
        out.push(ldraw_base.to_owned().concat("/p/48/").concat(filename));
        out.push(ldraw_base.to_owned().concat("/p/4/").concat(filename));
        out.push(ldraw_base.to_owned().concat("/UnOfficial/parts/").concat(filename));
        out.push(ldraw_base.to_owned().concat("/UnOfficial/p/").concat(filename));
        out.push(ldraw_base.to_owned().concat("/UnOfficial/p/8/").concat(filename));
        out.push(ldraw_base.to_owned().concat("/UnOfficial/p/48/").concat(filename));
        out.push(ldraw_base.to_owned().concat("/UnOfficial/p/4/").concat(filename));
        out
    }
}

} // verus!
