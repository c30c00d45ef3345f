//! A dataset name taken apart into host and name, with owned texts.

use crate::fs::{dataset_of, opt_string};
use crate::text::{chars_of, find_either, has_char, string_of};
use vstd::prelude::*;

verus! {

/// Host (none for the local machine) and name of a dataset, and whether the
/// dataset is the root of its pool.
#[derive(Debug, Clone, PartialEq, Eq)]
pub struct GetSsh {
    pub host: Option<String>,
    pub fs: String,
    pub is_root: bool,
}

impl GetSsh {
    /// Takes a dataset name apart. A host given apart counts, the empty one
    /// standing for the local machine; without one, a colon before the first
    /// slash parts the host from the name. A name without a slash is the root
    /// of a pool.
    pub fn new(host_opt: Option<String>, fs: String) -> (r: Self)
        ensures
            (opt_string(r.host), r.fs@) == dataset_of(opt_string(host_opt), fs@),
            r.is_root == !r.fs@.contains('/'),
    {
        let (host, fs) = match host_opt {
            Some(host) => (
                if host.as_str().unicode_len() == 0 {
                    None
                } else {
                    Some(host)
                },
                fs,
            ),
            None => {
                let v = chars_of(fs.as_str());
                let idx: usize = find_either(&v, '/', ':');
                if idx < v.len() && v[idx] == ':' {
                    let n: usize = v.len();
                    assert(v@.subrange(0, idx as int) =~= fs@.take(idx as int));
                    assert(v@.subrange(idx + 1, n as int) =~= fs@.skip(idx + 1));
                    (Some(string_of(&v, 0, idx)), string_of(&v, idx + 1, n))
                } else {
                    (None, fs)
                }
            },
        };
        let name = chars_of(fs.as_str());
        let is_root = !has_char(&name, '/');
        Self { host, fs, is_root }
    }
}

} // verus!
