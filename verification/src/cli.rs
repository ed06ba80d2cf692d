//! Command-line arguments and their resolution: command line first, then the
//! configuration, then the defaults.

use vstd::prelude::*;
use crate::config::Config;
use crate::models::opt_text;
use crate::paths::{join_path, path_join};
use crate::text::{chars_of, slice_chars, starts_with, starts_with_lit, string_of};

verus! {

/// Arguments given on the command line.
#[derive(Debug, Clone)]
pub struct Args {
    /// Source folder to scan.
    pub source: Option<String>,
    /// Destination folder.
    pub target: Option<String>,
    /// Number of parallel workers.
    pub workers: Option<usize>,
    /// Move files instead of copying them.
    pub move_files: bool,
    /// List the entries of the cache, then quit.
    pub list_processed: bool,
    /// List the files left unsorted with their reason, then quit.
    pub list_unsorted: bool,
    /// Simulate without copying or moving anything.
    pub dry_run: bool,
    /// Resume after an interruption: also skip `_unsorted` files already seen.
    pub resume: bool,
    /// Process again the files left in `_unsorted`, whatever their age.
    pub retry_unsorted: bool,
    /// Rewrite the canonical tags into the files on a sure match.
    pub fix_tags: bool,
    /// Undo past operations from the cache (a preview unless `apply`).
    pub rollback: bool,
    /// With `rollback`: really carry it out.
    pub apply: bool,
}

/// Arguments once command line, configuration and defaults are combined.
#[derive(Debug, Clone)]
pub struct ResolvedArgs {
    pub source: String,
    pub target: String,
    pub workers: usize,
    pub do_move: bool,
    pub list_processed: bool,
    pub list_unsorted: bool,
    pub dry_run: bool,
    pub resume: bool,
    pub retry_unsorted: bool,
    pub fix_tags: bool,
    pub rollback: bool,
    pub apply: bool,
}

/// A path starting with `~/` taken relative to the home folder, when known.
pub open spec fn expanded(path: Seq<char>, home: Option<Seq<char>>) -> Seq<char> {
    if starts_with(path, "~/"@) && home is Some {
        path_join(home->0, path.skip(2))
    } else {
        path
    }
}

/// The default folder named `name` in the home folder, or `~/name`.
pub open spec fn default_in_home(name: Seq<char>, home: Option<Seq<char>>) -> Seq<char> {
    match home {
        Some(h) => path_join(h, name),
        None => "~/"@ + name,
    }
}

/// A command-line value, else the configured one, else the default.
pub open spec fn pick_path(cli: Option<Seq<char>>, cfg: Option<Seq<char>>, default: Seq<char>) -> Seq<char> {
    match cli {
        Some(s) => s,
        None => match cfg {
            Some(s) => s,
            None => default,
        },
    }
}

/// The resolution of `args` and `config` for the home folder `home`.
pub open spec fn resolved_spec(args: Args, config: Config, home: Option<Seq<char>>, res: ResolvedArgs) -> bool {
    &&& res.source@ == expanded(
        pick_path(opt_text(args.source), opt_text(config.source), default_in_home("Téléchargements"@, home)),
        home,
    )
    &&& res.target@ == expanded(
        pick_path(opt_text(args.target), opt_text(config.target), default_in_home("Music"@, home)),
        home,
    )
    &&& res.workers == (match args.workers {
        Some(w) => w,
        None => match config.workers {
            Some(w) => w,
            None => 1,
        },
    })
    &&& res.do_move == (args.move_files || config.move_files == Some(true))
    &&& res.list_processed == args.list_processed
    &&& res.list_unsorted == args.list_unsorted
    &&& res.dry_run == args.dry_run
    &&& res.resume == args.resume
    &&& res.retry_unsorted == args.retry_unsorted
    &&& res.fix_tags == (args.fix_tags || config.fix_tags == Some(true))
    &&& res.rollback == args.rollback
    &&& res.apply == args.apply
}

/// Calls `dirs::home_dir`; the result depends on the environment and nothing
/// is stated of it.
#[verifier::external_body]
fn home_dir() -> Option<String> {
    dirs::home_dir().map(|h| h.to_string_lossy().into_owned())
}

fn expand_tilde(path: &str, home: &Option<String>) -> (res: String)
    ensures
        res@ == expanded(path@, opt_text(*home)),
{
    let v = chars_of(path);
    if starts_with_lit(v.as_slice(), "~/") {
        proof { reveal_strlit("~/"); }
        if let Some(h) = home {
            let rest = slice_chars(v.as_slice(), 2, v.len());
            assert(rest@ =~= path@.skip(2));
            return join_path(h.as_str(), string_of(rest.as_slice()).as_str());
        }
    }
    string_of(v.as_slice())
}

fn default_in_home_exec(name: &str, home: &Option<String>) -> (res: String)
    ensures
        res@ == default_in_home(name@, opt_text(*home)),
{
    match home {
        Some(h) => join_path(h.as_str(), name),
        None => {
            let prefix = chars_of("~/");
            let n = chars_of(name);
            string_of(crate::text::concat_chars(prefix.as_slice(), n.as_slice()).as_slice())
        },
    }
}

fn pick_path_exec(cli: Option<String>, cfg: &Option<String>, default: String) -> (res: String)
    ensures
        res@ == pick_path(opt_text(cli), opt_text(*cfg), default@),
{
    match cli {
        Some(s) => s,
        None => match cfg {
            Some(s) => s.clone(),
            None => default,
        },
    }
}

impl Args {
    /// Resolution for a known home folder (`None` when there is none).
    pub fn resolve_with_home(self, config: &Config, home: &Option<String>) -> (res: ResolvedArgs)
        ensures
            resolved_spec(self, *config, opt_text(*home), res),
    {
        let ghost args = self;
        let source_str = pick_path_exec(self.source, &config.source, default_in_home_exec("Téléchargements", home));
        let target_str = pick_path_exec(self.target, &config.target, default_in_home_exec("Music", home));
        let workers = match self.workers {
            Some(w) => w,
            None => match config.workers {
                Some(w) => w,
                None => 1,
            },
        };
        let do_move = if self.move_files {
            true
        } else {
            match config.move_files {
                Some(m) => m,
                None => false,
            }
        };
        ResolvedArgs {
            source: expand_tilde(source_str.as_str(), home),
            target: expand_tilde(target_str.as_str(), home),
            workers,
            do_move,
            list_processed: self.list_processed,
            list_unsorted: self.list_unsorted,
            dry_run: self.dry_run,
            resume: self.resume,
            retry_unsorted: self.retry_unsorted,
            fix_tags: self.fix_tags || match config.fix_tags {
                Some(f) => f,
                None => false,
            },
            rollback: self.rollback,
            apply: self.apply,
        }
    }

    /// Resolves the arguments: command line, then configuration, then
    /// defaults (`~/Téléchargements` and `~/Music`), with `~/` expanded to
    /// the home folder of the environment.
    pub fn resolve(self, config: &Config) -> (res: ResolvedArgs)
        ensures
            exists|home: Option<Seq<char>>| resolved_spec(self, *config, home, res),
    {
        let home = home_dir();
        let res = self.resolve_with_home(config, &home);
        assert(resolved_spec(self, *config, opt_text(home), res));
        res
    }
}

} // verus!
