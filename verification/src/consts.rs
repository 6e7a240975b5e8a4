//! Names and the default templates of the application.
use vstd::prelude::*;

verus! {

pub const APP_NAME: &'static str = "lanoma";

pub const APP_VERSION: &'static str = "0.1.0";

/// The default template of a master note.
pub const MASTER_NOTE_TEMPLATE: &'static str = "\\documentclass[class=memoir, crop=false, oneside, 12pt]{standalone}

% document metadata
\\author{ {{~profile.name~}} }
\\title{ {{~subject.name~}} }
\\date{ {{~reldate~}} }

\\begin{document}
% Frontmatter of the class note

{{#each master.notes}}
Note: {{this.title}}
{{/each }}

\\end{document}
";

/// The default template of a note.
pub const NOTE_TEMPLATE: &'static str = "\\documentclass[class=memoir, crop=false, oneside, 14pt]{standalone}

% document metadata
\\author{ {{~profile.name~}} }
\\title{ {{~note.title~}} }
\\date{ {{~reldate~}} }

\\begin{document}
Sample content.

{{subject.name}}
\\end{document}
";

} // verus!
