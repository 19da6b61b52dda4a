//! Constants for coreutils paths and applets.

use vstd::prelude::*;

verus! {

/// Where the unified coreutils dispatcher is linked.
pub const COREUTILS_UNIFIED_PATH: &'static str = "/usr/bin/coreutils";

/// Known locations of the unified dispatcher as packages install it.
pub const COREUTILS_UNIFIED_CANDIDATES: [&'static str; 3] = [
    "/usr/lib/uutils/coreutils/coreutils",
    "/usr/lib/cargo/bin/coreutils",
    "/usr/bin/coreutils.uutils",
];

/// The coreutils applets that are switched, one per line.
pub const COREUTILS_BINS_LIST: &'static str = "arch\nb2sum\nbase32\nbase64\nbasename\nbasenc\ncat\nchcon\nchgrp\nchmod\nchown\nchroot\ncksum\ncomm\ncp\ncsplit\ncut\ndate\ndd\ndf\ndir\ndircolors\ndirname\ndu\necho\nenv\nexpand\nexpr\nfactor\nfalse\nfmt\nfold\ngroups\nhead\nhostid\nhostname\nid\ninstall\njoin\nkill\nlink\nln\nlogname\nls\nmd5sum\nmkdir\nmkfifo\nmknod\nmktemp\nmore\nmv\nnice\nnl\nnohup\nnproc\nnumfmt\nod\npaste\npathchk\npinky\npr\nprintenv\nprintf\nptx\npwd\nreadlink\nrealpath\nrm\nrmdir\nruncon\nseq\nsha1sum\nsha224sum\nsha256sum\nsha384sum\nsha512sum\nshred\nshuf\nsleep\nsort\nsplit\nstat\nstdbuf\nstty\nsum\nsync\ntac\ntail\ntee\ntest\ntimeout\ntouch\ntr\ntrue\ntruncate\ntsort\ntty\nuname\nunexpand\nuniq\nunlink\nuptime\nusers\nvdir\nwc\nwho\nwhoami\nyes\n";

pub const SYSTEM_BIN_DIR: &'static str = "/usr/bin";

} // verus!
