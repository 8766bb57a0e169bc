//! The run's configuration, derived from the command-line arguments. The
//! caller parses the command line into `Args` and the library computes
//! the source and destination directories from it: articles are read from
//! `<src_dir>/articles` and images from `<src_dir>/images`.

use vstd::prelude::*;
use vstd::string::StringExecFns;

verus! {

/// The command-line arguments, as plain values.
pub struct Args {
    /// Path of the root directory of the source content.
    pub src_dir: String,
    /// The directory where the rewritten article Markdown goes.
    pub dest_dir: String,
    /// The directory where the copied images go.
    pub dest_images_dir: String,
    /// File names to process, all when empty.
    pub included: Vec<String>,
    /// File names to leave out.
    pub excluded: Vec<String>,
    /// An optional YAML configuration file.
    pub config_file: Option<String>,
}

/// The configuration and paths derived from the command-line arguments.
#[derive(Debug)]
pub struct Properties {
    pub src_articles_dir: String,
    pub dest_articles_dir: String,
    pub src_images_dir: String,
    pub dest_images_dir: String,
    pub included: Option<Vec<String>>,
    pub excluded: Option<Vec<String>>,
    pub config_file: Option<String>,
}

/// Derives the run's paths from the arguments: the articles and images
/// source directories are the content root joined with `/articles` and
/// `/images`; the destinations and filter lists are taken as given.
pub fn get_properties(args: Args) -> (r: Properties)
    ensures
        r.src_articles_dir@ == args.src_dir@ + "/articles"@,
        r.src_images_dir@ == args.src_dir@ + "/images"@,
        r.dest_articles_dir@ == args.dest_dir@,
        r.dest_images_dir@ == args.dest_images_dir@,
        r.included == Some(args.included),
        r.excluded == Some(args.excluded),
        r.config_file == args.config_file,
{
    let mut src_articles_dir = args.src_dir.clone();
    src_articles_dir.append("/articles");
    let mut src_images_dir = args.src_dir.clone();
    src_images_dir.append("/images");
    Properties {
        config_file: args.config_file,
        src_articles_dir,
        dest_articles_dir: args.dest_dir,
        src_images_dir,
        dest_images_dir: args.dest_images_dir,
        included: Some(args.included),
        excluded: Some(args.excluded),
    }
}

} // verus!
