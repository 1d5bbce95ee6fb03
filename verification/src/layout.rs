//! Target layouts: where a component's files live in a consuming
//! project. The `TemplateAdapter` trait abstracts the convention so plan
//! generation can target any structure; `DefaultLayout` is the built-in
//! feature-first layout.

use vstd::prelude::*;

use crate::strutil::{lower_seq, lowercase};

verus! {

/// Describes how components are laid out in a target project. Each
/// executable method is pinned to its spec counterpart, so a plan
/// generated through any adapter is a pure function of the adapter's
/// answers.
pub trait TemplateAdapter {
    /// Model of the layout's name.
    spec fn spec_name(&self) -> Seq<char>;

    /// Model of the directory for a component's source files.
    spec fn spec_component_dir(&self, component_name: Seq<char>) -> Seq<char>;

    /// Model of the path of the module file that exports components.
    spec fn spec_module_file(&self) -> Seq<char>;

    /// Model of the export line added for a component.
    spec fn spec_export_line(&self, component_name: Seq<char>) -> Seq<char>;

    /// Model of the path of the theme tokens file.
    spec fn spec_theme_tokens_file(&self) -> Seq<char>;

    /// Human-readable name of this layout.
    fn name(&self) -> (r: String)
        ensures
            r@ == self.spec_name(),
    ;

    /// The directory where a component's source files should go.
    fn component_dir(&self, component_name: &str) -> (r: String)
        ensures
            r@ == self.spec_component_dir(component_name@),
    ;

    /// The path of the module file that exports components.
    fn module_file(&self) -> (r: String)
        ensures
            r@ == self.spec_module_file(),
    ;

    /// The export line to add to the module file for a component.
    fn export_line(&self, component_name: &str) -> (r: String)
        ensures
            r@ == self.spec_export_line(component_name@),
    ;

    /// The path of the theme tokens file.
    fn theme_tokens_file(&self) -> (r: String)
        ensures
            r@ == self.spec_theme_tokens_file(),
    ;
}

/// The default target layout, a feature-first vertical slice:
/// component sources under `src/shared/ui/<component>/`, exports in
/// `src/shared/ui/mod.rs`, theme tokens in `src/shared/theme/tokens.rs`.
#[derive(Debug, Clone)]
pub struct DefaultLayout {
    /// Root directory of the target project.
    pub project_root: String,
}

impl DefaultLayout {
    /// A default layout rooted at the given project directory.
    pub fn new(project_root: &str) -> (r: Self)
        ensures
            r.project_root@ == project_root@,
    {
        DefaultLayout { project_root: project_root.to_owned() }
    }
}

impl TemplateAdapter for DefaultLayout {
    open spec fn spec_name(&self) -> Seq<char> {
        "default"@
    }

    open spec fn spec_component_dir(&self, component_name: Seq<char>) -> Seq<char> {
        self.project_root@ + "/src/shared/ui/"@ + lower_seq(component_name)
    }

    open spec fn spec_module_file(&self) -> Seq<char> {
        self.project_root@ + "/src/shared/ui/mod.rs"@
    }

    open spec fn spec_export_line(&self, component_name: Seq<char>) -> Seq<char> {
        "pub mod "@ + lower_seq(component_name) + ";"@
    }

    open spec fn spec_theme_tokens_file(&self) -> Seq<char> {
        self.project_root@ + "/src/shared/theme/tokens.rs"@
    }

    fn name(&self) -> (r: String) {
        String::from_str("default")
    }

    fn component_dir(&self, component_name: &str) -> (r: String) {
        let mut out = self.project_root.clone();
        out.append("/src/shared/ui/");
        let lower = lowercase(component_name);
        out.append(lower.as_str());
        assert(out@ =~= self.spec_component_dir(component_name@));
        out
    }

    fn module_file(&self) -> (r: String) {
        let mut out = self.project_root.clone();
        out.append("/src/shared/ui/mod.rs");
        out
    }

    fn export_line(&self, component_name: &str) -> (r: String) {
        let mut out = String::from_str("pub mod ");
        let lower = lowercase(component_name);
        out.append(lower.as_str());
        out.append(";");
        assert(out@ =~= self.spec_export_line(component_name@));
        out
    }

    fn theme_tokens_file(&self) -> (r: String) {
        let mut out = self.project_root.clone();
        out.append("/src/shared/theme/tokens.rs");
        out
    }
}

} // verus!
