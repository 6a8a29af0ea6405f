//! Naming of the container images built for the members of a workspace.
use vstd::prelude::*;

verus! {

/// What `Path::parent` gives for a path: the path without its last component.
pub uninterp spec fn parent_of(p: Seq<char>) -> Option<Seq<char>>;

/// What `Path::file_name` gives for a path: its last normal component.
pub uninterp spec fn file_name_of(p: Seq<char>) -> Option<Seq<char>>;

/// Relies on `std::path::Path::parent`; a parent of a `str` path is valid
/// UTF-8, so the conversion back to text loses nothing.
#[verifier::external_body]
fn path_parent(p: &str) -> (r: Option<String>)
    ensures
        match parent_of(p@) {
            Some(q) => r matches Some(s) && s@ == q,
            None => r is None,
        },
{
    std::path::Path::new(p).parent().map(|q| q.to_string_lossy().into_owned())
}

/// Relies on `std::path::Path::file_name`; a component of a `str` path is
/// valid UTF-8, so the conversion back to text loses nothing.
#[verifier::external_body]
fn path_file_name(p: &str) -> (r: Option<String>)
    ensures
        match file_name_of(p@) {
            Some(n) => r matches Some(s) && s@ == n,
            None => r is None,
        },
{
    std::path::Path::new(p).file_name().map(|n| n.to_string_lossy().into_owned())
}

/// The directory name that an image is named after, or `unknown`.
pub open spec fn dir_or_unknown(dir: Option<Seq<char>>) -> Seq<char> {
    match dir {
        Some(d) => d,
        None => "unknown"@,
    }
}

/// The name of a member's image, given the name of the directory above it.
pub fn image_name_for(parent_dir: Option<&str>) -> (r: String)
    ensures
        r@ == "ucw-checker-"@ + dir_or_unknown(
            match parent_dir {
                Some(d) => Some(d@),
                None => None,
            },
        ),
{
    let mut r = String::from_str("ucw-checker-");
    match parent_dir {
        Some(d) => r.append(d),
        None => r.append("unknown"),
    }
    r
}

/// The name of the directory above the last component of `member_path`.
pub open spec fn parent_dir_name(member_path: Seq<char>) -> Option<Seq<char>> {
    match parent_of(member_path) {
        Some(q) => file_name_of(q),
        None => None,
    }
}

/// The image name of the workspace member at `member_path`: `ucw-checker-`
/// followed by the name of the directory that holds the member's directory,
/// or by `unknown` when there is none.
pub fn get_image_name_from_path(member_path: &str) -> (r: String)
    ensures
        r@ == "ucw-checker-"@ + dir_or_unknown(parent_dir_name(member_path@)),
{
    let dir = match path_parent(member_path) {
        Some(q) => path_file_name(q.as_str()),
        None => None,
    };
    match dir {
        Some(d) => image_name_for(Some(d.as_str())),
        None => image_name_for(None),
    }
}

/// The registry reference under which a member's image is published.
pub fn full_image_name(image_name: &str) -> (r: String)
    ensures
        r@ == "ghcr.io/libp2p/universal-connectivity-workshop/"@ + image_name@ + ":latest"@,
{
    let mut r = String::from_str("ghcr.io/libp2p/universal-connectivity-workshop/");
    r.append(image_name);
    r.append(":latest");
    r
}

/// The member paths that are built: the entries that are strings, except
/// the build tool's own `xtask`, in their order.
pub open spec fn selected(entries: Seq<Option<String>>) -> Seq<String>
    decreases entries.len(),
{
    if entries.len() == 0 {
        Seq::empty()
    } else {
        let rest = selected(entries.drop_last());
        match entries.last() {
            Some(p) => if p@ == "xtask"@ {
                rest
            } else {
                rest.push(p)
            },
            None => rest,
        }
    }
}

/// Picks the workspace members to build from the entries of the manifest's
/// member list (`None` for an entry that is not a string).
pub fn select_members(entries: Vec<Option<String>>) -> (r: Vec<String>)
    ensures
        r@ == selected(entries@),
{
    let mut r: Vec<String> = Vec::new();
    let mut i: usize = 0;
    let own = String::from_str("xtask");
    while i < entries.len()
        invariant
            i <= entries@.len(),
            own@ == "xtask"@,
            r@ == selected(entries@.subrange(0, i as int)),
        decreases entries@.len() - i,
    {
        let ghost cur = entries@.subrange(0, i as int + 1);
        assert(cur.drop_last() =~= entries@.subrange(0, i as int));
        match &entries[i] {
            Some(p) => {
                if *p != own {
                    r.push(p.clone());
                }
            },
            None => {},
        }
        i = i + 1;
    }
    assert(entries@.subrange(0, entries@.len() as int) =~= entries@);
    r
}

} // verus!
