//! The feed-source registry: an ordered list of feed URLs per category,
//! and the rule that flattens the included categories into the one ordered
//! sequence the processor consumes.

use vstd::prelude::*;

verus! {

/// Which categories a run loads, as an explicit structure passed in rather
/// than process-wide constants.
#[derive(Clone, Copy, PartialEq, Eq, Structural, Debug)]
pub struct CategoryOptions {
    pub include_main: bool,
    pub include_cybersecurity: bool,
    pub include_science: bool,
    pub include_favorites: bool,
}

/// The configured feed URLs, one ordered list per category.
#[derive(Debug)]
pub struct FeedConfig {
    pub main_feeds: Vec<String>,
    pub cybersecurity: Vec<String>,
    pub science: Vec<String>,
    pub favorites: Vec<String>,
}

/// The flattened, ordered URL sequence a configuration yields under the
/// given options: the included categories' lists, in the fixed category
/// order (main, cybersecurity, science, favorites).
pub open spec fn spec_flatten(cfg: FeedConfig, opts: CategoryOptions) -> Seq<String> {
    (if opts.include_main {
        cfg.main_feeds@
    } else {
        Seq::empty()
    }) + (if opts.include_cybersecurity {
        cfg.cybersecurity@
    } else {
        Seq::empty()
    }) + (if opts.include_science {
        cfg.science@
    } else {
        Seq::empty()
    }) + (if opts.include_favorites {
        cfg.favorites@
    } else {
        Seq::empty()
    })
}

/// Flattens a configuration into the ordered URL list of its included
/// categories; category grouping is a loader concern, and the rest of the
/// pipeline consumes only this sequence.
pub fn flatten_feeds(cfg: FeedConfig, opts: CategoryOptions) -> (r: Vec<String>)
    ensures
        r@ == spec_flatten(cfg, opts),
{
    let mut c = cfg;
    let mut r: Vec<String> = Vec::new();
    if opts.include_main {
        r.append(&mut c.main_feeds);
    }
    if opts.include_cybersecurity {
        r.append(&mut c.cybersecurity);
    }
    if opts.include_science {
        r.append(&mut c.science);
    }
    if opts.include_favorites {
        r.append(&mut c.favorites);
    }
    proof {
        assert(r@ =~= spec_flatten(cfg, opts));
    }
    r
}

} // verus!
