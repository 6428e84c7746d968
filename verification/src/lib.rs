use vstd::prelude::*;

mod copier;
mod frontmatter;
mod references;
mod resolver;
mod scanner;
mod strings;
mod tokens;

pub use copier::Copier;
pub use copier::CopyError;
pub use copier::Document;
pub use copier::note_included;
pub use frontmatter::decode_tags;
pub use references::ObsidianNoteReference;
pub use references::RefParser;
pub use references::RefParserState;
pub use references::RefType;
pub use resolver::is_markdown_file;
pub use resolver::lookup_filename_in_vault;
pub use scanner::RawRef;
pub use scanner::ScanOutcome;
pub use scanner::scan_tokens;
pub use tokens::Token;
pub use tokens::tokenize;
