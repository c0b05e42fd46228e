//! The method catalog: names, and the params each method takes.

use vstd::prelude::*;
use crate::decimal::{decimal, i64_text, signed_decimal, u64_text};
use crate::json::{array, object, object_entry, Json, JsonTree};
use crate::params::{
    bool_field, bool_of, is_object, optional_text_field, optional_text_of, optional_text_view,
    optional_u64_field, optional_u64_of, params_not_object, text_field, text_list_field,
    text_list_of, text_list_view, text_of, u16_field, u16_of,
};

verus! {

pub const FS_LIST: &'static str = "fs/list";

pub const FS_READ: &'static str = "fs/read";

pub const FS_WRITE: &'static str = "fs/write";

pub const FS_STAT: &'static str = "fs/stat";

pub const FS_MKDIR: &'static str = "fs/mkdir";

pub const FS_REMOVE: &'static str = "fs/remove";

pub const TERM_CREATE: &'static str = "terminal/create";

pub const TERM_DATA: &'static str = "terminal/data";

pub const TERM_RESIZE: &'static str = "terminal/resize";

pub const TERM_CLOSE: &'static str = "terminal/close";

pub const GIT_STATUS: &'static str = "git/status";

pub const GIT_DIFF: &'static str = "git/diff";

pub const GIT_LOG: &'static str = "git/log";

pub const GIT_COMMIT: &'static str = "git/commit";

pub const GIT_BRANCH_LIST: &'static str = "git/branches";

pub const GIT_CHECKOUT: &'static str = "git/checkout";

pub const AI_PROMPT: &'static str = "ai/prompt";

pub const AI_CANCEL: &'static str = "ai/cancel";

pub const LSP_DIAGNOSTICS: &'static str = "lsp/diagnostics";

pub const LSP_HOVER: &'static str = "lsp/hover";

pub const TERM_OUTPUT: &'static str = "terminal/output";

pub const AI_STREAM: &'static str = "ai/stream";

/// Params of `fs/list`: the directory to list.
pub struct FsListParams {
    pub path: String,
}

impl FsListParams {
    /// Reads the params from `j`; the first field that is missing or mistyped
    /// is reported.
    pub fn from_json(j: &Json) -> (r: Result<FsListParams, String>)
        ensures
            !(j@ is Object) ==> (r matches Err(m) && m@ == params_not_object()),
            j@ is Object ==> {
                match text_of(j@, "path"@) {
                    Err(e) => r matches Err(m) && m@ == e,
                    Ok(path_v) => {
                        r matches Ok(p) && p.path@ == path_v
                    },
                }
            },
    {
        if !is_object(j) {
            return Err("params must be an object".to_owned());
        }
        let path = match text_field(j, "path") {
            Ok(v) => v,
            Err(e) => {
                return Err(e);
            },
        };
        Ok(FsListParams { path })
    }
}

/// Params of `fs/read`: the file to read.
pub struct FsReadParams {
    pub path: String,
}

impl FsReadParams {
    /// Reads the params from `j`; the first field that is missing or mistyped
    /// is reported.
    pub fn from_json(j: &Json) -> (r: Result<FsReadParams, String>)
        ensures
            !(j@ is Object) ==> (r matches Err(m) && m@ == params_not_object()),
            j@ is Object ==> {
                match text_of(j@, "path"@) {
                    Err(e) => r matches Err(m) && m@ == e,
                    Ok(path_v) => {
                        r matches Ok(p) && p.path@ == path_v
                    },
                }
            },
    {
        if !is_object(j) {
            return Err("params must be an object".to_owned());
        }
        let path = match text_field(j, "path") {
            Ok(v) => v,
            Err(e) => {
                return Err(e);
            },
        };
        Ok(FsReadParams { path })
    }
}

/// Params of `fs/write`: the file and its new content.
pub struct FsWriteParams {
    pub path: String,
    pub content: String,
}

impl FsWriteParams {
    /// Reads the params from `j`; the first field that is missing or mistyped
    /// is reported.
    pub fn from_json(j: &Json) -> (r: Result<FsWriteParams, String>)
        ensures
            !(j@ is Object) ==> (r matches Err(m) && m@ == params_not_object()),
            j@ is Object ==> {
                match text_of(j@, "path"@) {
                    Err(e) => r matches Err(m) && m@ == e,
                    Ok(path_v) => {
                        match text_of(j@, "content"@) {
                            Err(e) => r matches Err(m) && m@ == e,
                            Ok(content_v) => {
                                r matches Ok(p) && p.path@ == path_v && p.content@ == content_v
                            },
                        }
                    },
                }
            },
    {
        if !is_object(j) {
            return Err("params must be an object".to_owned());
        }
        let path = match text_field(j, "path") {
            Ok(v) => v,
            Err(e) => {
                return Err(e);
            },
        };
        let content = match text_field(j, "content") {
            Ok(v) => v,
            Err(e) => {
                return Err(e);
            },
        };
        Ok(FsWriteParams { path, content })
    }
}

/// Params of `fs/stat`: the path to describe.
pub struct FsStatParams {
    pub path: String,
}

impl FsStatParams {
    /// Reads the params from `j`; the first field that is missing or mistyped
    /// is reported.
    pub fn from_json(j: &Json) -> (r: Result<FsStatParams, String>)
        ensures
            !(j@ is Object) ==> (r matches Err(m) && m@ == params_not_object()),
            j@ is Object ==> {
                match text_of(j@, "path"@) {
                    Err(e) => r matches Err(m) && m@ == e,
                    Ok(path_v) => {
                        r matches Ok(p) && p.path@ == path_v
                    },
                }
            },
    {
        if !is_object(j) {
            return Err("params must be an object".to_owned());
        }
        let path = match text_field(j, "path") {
            Ok(v) => v,
            Err(e) => {
                return Err(e);
            },
        };
        Ok(FsStatParams { path })
    }
}

/// Params of `git/diff`: an optional path, and whether to diff the staged changes.
pub struct GitDiffParams {
    pub path: Option<String>,
    pub staged: bool,
}

impl GitDiffParams {
    /// Reads the params from `j`; the first field that is missing or mistyped
    /// is reported.
    pub fn from_json(j: &Json) -> (r: Result<GitDiffParams, String>)
        ensures
            !(j@ is Object) ==> (r matches Err(m) && m@ == params_not_object()),
            j@ is Object ==> {
                match optional_text_of(j@, "path"@) {
                    Err(e) => r matches Err(m) && m@ == e,
                    Ok(path_v) => {
                        match bool_of(j@, "staged"@) {
                            Err(e) => r matches Err(m) && m@ == e,
                            Ok(staged_v) => {
                                r matches Ok(p) && optional_text_view(p.path) == path_v && p.staged == staged_v
                            },
                        }
                    },
                }
            },
    {
        if !is_object(j) {
            return Err("params must be an object".to_owned());
        }
        let path = match optional_text_field(j, "path") {
            Ok(v) => v,
            Err(e) => {
                return Err(e);
            },
        };
        let staged = match bool_field(j, "staged") {
            Ok(v) => v,
            Err(e) => {
                return Err(e);
            },
        };
        Ok(GitDiffParams { path, staged })
    }
}

/// Params of `git/log`: how many commits, when given.
pub struct GitLogParams {
    pub limit: Option<u64>,
}

impl GitLogParams {
    /// Reads the params from `j`; the first field that is missing or mistyped
    /// is reported.
    pub fn from_json(j: &Json) -> (r: Result<GitLogParams, String>)
        ensures
            !(j@ is Object) ==> (r matches Err(m) && m@ == params_not_object()),
            j@ is Object ==> {
                match optional_u64_of(j@, "limit"@) {
                    Err(e) => r matches Err(m) && m@ == e,
                    Ok(limit_v) => {
                        r matches Ok(p) && p.limit == limit_v
                    },
                }
            },
    {
        if !is_object(j) {
            return Err("params must be an object".to_owned());
        }
        let limit = match optional_u64_field(j, "limit") {
            Ok(v) => v,
            Err(e) => {
                return Err(e);
            },
        };
        Ok(GitLogParams { limit })
    }
}

/// Params of `git/commit`: the message and the paths to stage.
pub struct GitCommitParams {
    pub message: String,
    pub paths: Vec<String>,
}

impl GitCommitParams {
    /// Reads the params from `j`; the first field that is missing or mistyped
    /// is reported.
    pub fn from_json(j: &Json) -> (r: Result<GitCommitParams, String>)
        ensures
            !(j@ is Object) ==> (r matches Err(m) && m@ == params_not_object()),
            j@ is Object ==> {
                match text_of(j@, "message"@) {
                    Err(e) => r matches Err(m) && m@ == e,
                    Ok(message_v) => {
                        match text_list_of(j@, "paths"@) {
                            Err(e) => r matches Err(m) && m@ == e,
                            Ok(paths_v) => {
                                r matches Ok(p) && p.message@ == message_v && text_list_view(p.paths) == paths_v
                            },
                        }
                    },
                }
            },
    {
        if !is_object(j) {
            return Err("params must be an object".to_owned());
        }
        let message = match text_field(j, "message") {
            Ok(v) => v,
            Err(e) => {
                return Err(e);
            },
        };
        let paths = match text_list_field(j, "paths") {
            Ok(v) => v,
            Err(e) => {
                return Err(e);
            },
        };
        Ok(GitCommitParams { message, paths })
    }
}

/// Params of `git/checkout`: the branch to check out.
pub struct GitCheckoutParams {
    pub branch: String,
}

impl GitCheckoutParams {
    /// Reads the params from `j`; the first field that is missing or mistyped
    /// is reported.
    pub fn from_json(j: &Json) -> (r: Result<GitCheckoutParams, String>)
        ensures
            !(j@ is Object) ==> (r matches Err(m) && m@ == params_not_object()),
            j@ is Object ==> {
                match text_of(j@, "branch"@) {
                    Err(e) => r matches Err(m) && m@ == e,
                    Ok(branch_v) => {
                        r matches Ok(p) && p.branch@ == branch_v
                    },
                }
            },
    {
        if !is_object(j) {
            return Err("params must be an object".to_owned());
        }
        let branch = match text_field(j, "branch") {
            Ok(v) => v,
            Err(e) => {
                return Err(e);
            },
        };
        Ok(GitCheckoutParams { branch })
    }
}

/// Params of `terminal/create`: the geometry of the new terminal.
pub struct TermCreateParams {
    pub cols: u16,
    pub rows: u16,
}

impl TermCreateParams {
    /// Reads the params from `j`; the first field that is missing or mistyped
    /// is reported.
    pub fn from_json(j: &Json) -> (r: Result<TermCreateParams, String>)
        ensures
            !(j@ is Object) ==> (r matches Err(m) && m@ == params_not_object()),
            j@ is Object ==> {
                match u16_of(j@, "cols"@) {
                    Err(e) => r matches Err(m) && m@ == e,
                    Ok(cols_v) => {
                        match u16_of(j@, "rows"@) {
                            Err(e) => r matches Err(m) && m@ == e,
                            Ok(rows_v) => {
                                r matches Ok(p) && p.cols == cols_v && p.rows == rows_v
                            },
                        }
                    },
                }
            },
    {
        if !is_object(j) {
            return Err("params must be an object".to_owned());
        }
        let cols = match u16_field(j, "cols") {
            Ok(v) => v,
            Err(e) => {
                return Err(e);
            },
        };
        let rows = match u16_field(j, "rows") {
            Ok(v) => v,
            Err(e) => {
                return Err(e);
            },
        };
        Ok(TermCreateParams { cols, rows })
    }
}

/// Params of `terminal/data`: the terminal and the URL-safe base64 input.
pub struct TermDataParams {
    pub id: String,
    pub data: String,
}

impl TermDataParams {
    /// Reads the params from `j`; the first field that is missing or mistyped
    /// is reported.
    pub fn from_json(j: &Json) -> (r: Result<TermDataParams, String>)
        ensures
            !(j@ is Object) ==> (r matches Err(m) && m@ == params_not_object()),
            j@ is Object ==> {
                match text_of(j@, "id"@) {
                    Err(e) => r matches Err(m) && m@ == e,
                    Ok(id_v) => {
                        match text_of(j@, "data"@) {
                            Err(e) => r matches Err(m) && m@ == e,
                            Ok(data_v) => {
                                r matches Ok(p) && p.id@ == id_v && p.data@ == data_v
                            },
                        }
                    },
                }
            },
    {
        if !is_object(j) {
            return Err("params must be an object".to_owned());
        }
        let id = match text_field(j, "id") {
            Ok(v) => v,
            Err(e) => {
                return Err(e);
            },
        };
        let data = match text_field(j, "data") {
            Ok(v) => v,
            Err(e) => {
                return Err(e);
            },
        };
        Ok(TermDataParams { id, data })
    }
}

/// Params of `terminal/resize`: the terminal and its new geometry.
pub struct TermResizeParams {
    pub id: String,
    pub cols: u16,
    pub rows: u16,
}

impl TermResizeParams {
    /// Reads the params from `j`; the first field that is missing or mistyped
    /// is reported.
    pub fn from_json(j: &Json) -> (r: Result<TermResizeParams, String>)
        ensures
            !(j@ is Object) ==> (r matches Err(m) && m@ == params_not_object()),
            j@ is Object ==> {
                match text_of(j@, "id"@) {
                    Err(e) => r matches Err(m) && m@ == e,
                    Ok(id_v) => {
                        match u16_of(j@, "cols"@) {
                            Err(e) => r matches Err(m) && m@ == e,
                            Ok(cols_v) => {
                                match u16_of(j@, "rows"@) {
                                    Err(e) => r matches Err(m) && m@ == e,
                                    Ok(rows_v) => {
                                        r matches Ok(p) && p.id@ == id_v && p.cols == cols_v && p.rows == rows_v
                                    },
                                }
                            },
                        }
                    },
                }
            },
    {
        if !is_object(j) {
            return Err("params must be an object".to_owned());
        }
        let id = match text_field(j, "id") {
            Ok(v) => v,
            Err(e) => {
                return Err(e);
            },
        };
        let cols = match u16_field(j, "cols") {
            Ok(v) => v,
            Err(e) => {
                return Err(e);
            },
        };
        let rows = match u16_field(j, "rows") {
            Ok(v) => v,
            Err(e) => {
                return Err(e);
            },
        };
        Ok(TermResizeParams { id, cols, rows })
    }
}

/// Params of `terminal/close`: the terminal to close.
pub struct TermCloseParams {
    pub id: String,
}

impl TermCloseParams {
    /// Reads the params from `j`; the first field that is missing or mistyped
    /// is reported.
    pub fn from_json(j: &Json) -> (r: Result<TermCloseParams, String>)
        ensures
            !(j@ is Object) ==> (r matches Err(m) && m@ == params_not_object()),
            j@ is Object ==> {
                match text_of(j@, "id"@) {
                    Err(e) => r matches Err(m) && m@ == e,
                    Ok(id_v) => {
                        r matches Ok(p) && p.id@ == id_v
                    },
                }
            },
    {
        if !is_object(j) {
            return Err("params must be an object".to_owned());
        }
        let id = match text_field(j, "id") {
            Ok(v) => v,
            Err(e) => {
                return Err(e);
            },
        };
        Ok(TermCloseParams { id })
    }
}

/// Params of `ai/prompt`: the prompt and optional context.
pub struct AiPromptParams {
    pub prompt: String,
    pub context: Option<String>,
}

impl AiPromptParams {
    /// Reads the params from `j`; the first field that is missing or mistyped
    /// is reported.
    pub fn from_json(j: &Json) -> (r: Result<AiPromptParams, String>)
        ensures
            !(j@ is Object) ==> (r matches Err(m) && m@ == params_not_object()),
            j@ is Object ==> {
                match text_of(j@, "prompt"@) {
                    Err(e) => r matches Err(m) && m@ == e,
                    Ok(prompt_v) => {
                        match optional_text_of(j@, "context"@) {
                            Err(e) => r matches Err(m) && m@ == e,
                            Ok(context_v) => {
                                r matches Ok(p) && p.prompt@ == prompt_v && optional_text_view(p.context) == context_v
                            },
                        }
                    },
                }
            },
    {
        if !is_object(j) {
            return Err("params must be an object".to_owned());
        }
        let prompt = match text_field(j, "prompt") {
            Ok(v) => v,
            Err(e) => {
                return Err(e);
            },
        };
        let context = match optional_text_field(j, "context") {
            Ok(v) => v,
            Err(e) => {
                return Err(e);
            },
        };
        Ok(AiPromptParams { prompt, context })
    }
}

/// Params of `lsp/diagnostics` and `lsp/hover`: the file concerned.
pub struct LspPathParams {
    pub path: String,
}

impl LspPathParams {
    /// Reads the params from `j`; the first field that is missing or mistyped
    /// is reported.
    pub fn from_json(j: &Json) -> (r: Result<LspPathParams, String>)
        ensures
            !(j@ is Object) ==> (r matches Err(m) && m@ == params_not_object()),
            j@ is Object ==> {
                match text_of(j@, "path"@) {
                    Err(e) => r matches Err(m) && m@ == e,
                    Ok(path_v) => {
                        r matches Ok(p) && p.path@ == path_v
                    },
                }
            },
    {
        if !is_object(j) {
            return Err("params must be an object".to_owned());
        }
        let path = match text_field(j, "path") {
            Ok(v) => v,
            Err(e) => {
                return Err(e);
            },
        };
        Ok(LspPathParams { path })
    }
}

/// A number, or null when there is none.
pub open spec fn optional_number(v: Option<u64>) -> JsonTree {
    match v {
        Some(n) => JsonTree::Number(decimal(n as nat)),
        None => JsonTree::Null,
    }
}

fn optional_number_json(v: Option<u64>) -> (r: Json)
    ensures
        r@ == optional_number(v),
{
    match v {
        Some(n) => Json::Number(u64_text(n)),
        None => Json::Null,
    }
}

/// One entry of a directory listing.
pub struct FsEntry {
    pub name: String,
    pub path: String,
    pub is_dir: bool,
    pub size: u64,
}

impl FsEntry {
    /// The JSON object of this value.
    pub open spec fn tree(&self) -> JsonTree {
        JsonTree::Object(seq![("name"@, JsonTree::Str(self.name@)), ("path"@, JsonTree::Str(self.path@)), ("is_dir"@, JsonTree::Bool(self.is_dir)), ("size"@, JsonTree::Number(decimal(self.size as nat)))])
    }

    pub fn to_json(&self) -> (r: Json)
        ensures
            r@ == self.tree(),
    {
        let ghost t = self.tree();
        let mut es: Vec<(String, Json)> = Vec::new();
        es.push(object_entry("name", Json::Str(self.name.clone())));
        es.push(object_entry("path", Json::Str(self.path.clone())));
        es.push(object_entry("is_dir", Json::Bool(self.is_dir)));
        es.push(object_entry("size", Json::Number(u64_text(self.size))));
        let r = object(es);
        assert(r@->Object_0 =~= t->Object_0);
        r
    }
}

/// Result of `fs/read`.
pub struct FsReadResult {
    pub content: String,
}

impl FsReadResult {
    /// The JSON object of this value.
    pub open spec fn tree(&self) -> JsonTree {
        JsonTree::Object(seq![("content"@, JsonTree::Str(self.content@))])
    }

    pub fn to_json(&self) -> (r: Json)
        ensures
            r@ == self.tree(),
    {
        let ghost t = self.tree();
        let mut es: Vec<(String, Json)> = Vec::new();
        es.push(object_entry("content", Json::Str(self.content.clone())));
        let r = object(es);
        assert(r@->Object_0 =~= t->Object_0);
        r
    }
}

/// Result of `fs/stat`; `modified` is in seconds since the epoch.
pub struct FsStatResult {
    pub path: String,
    pub is_dir: bool,
    pub size: u64,
    pub modified: Option<u64>,
}

impl FsStatResult {
    /// The JSON object of this value.
    pub open spec fn tree(&self) -> JsonTree {
        JsonTree::Object(seq![("path"@, JsonTree::Str(self.path@)), ("is_dir"@, JsonTree::Bool(self.is_dir)), ("size"@, JsonTree::Number(decimal(self.size as nat))), ("modified"@, optional_number(self.modified))])
    }

    pub fn to_json(&self) -> (r: Json)
        ensures
            r@ == self.tree(),
    {
        let ghost t = self.tree();
        let mut es: Vec<(String, Json)> = Vec::new();
        es.push(object_entry("path", Json::Str(self.path.clone())));
        es.push(object_entry("is_dir", Json::Bool(self.is_dir)));
        es.push(object_entry("size", Json::Number(u64_text(self.size))));
        es.push(object_entry("modified", optional_number_json(self.modified)));
        let r = object(es);
        assert(r@->Object_0 =~= t->Object_0);
        r
    }
}

/// One changed path, with its status word.
pub struct GitStatusEntry {
    pub path: String,
    pub status: String,
}

impl GitStatusEntry {
    /// The JSON object of this value.
    pub open spec fn tree(&self) -> JsonTree {
        JsonTree::Object(seq![("path"@, JsonTree::Str(self.path@)), ("status"@, JsonTree::Str(self.status@))])
    }

    pub fn to_json(&self) -> (r: Json)
        ensures
            r@ == self.tree(),
    {
        let ghost t = self.tree();
        let mut es: Vec<(String, Json)> = Vec::new();
        es.push(object_entry("path", Json::Str(self.path.clone())));
        es.push(object_entry("status", Json::Str(self.status.clone())));
        let r = object(es);
        assert(r@->Object_0 =~= t->Object_0);
        r
    }
}

/// Result of `git/diff`.
pub struct GitDiffResult {
    pub diff: String,
}

impl GitDiffResult {
    /// The JSON object of this value.
    pub open spec fn tree(&self) -> JsonTree {
        JsonTree::Object(seq![("diff"@, JsonTree::Str(self.diff@))])
    }

    pub fn to_json(&self) -> (r: Json)
        ensures
            r@ == self.tree(),
    {
        let ghost t = self.tree();
        let mut es: Vec<(String, Json)> = Vec::new();
        es.push(object_entry("diff", Json::Str(self.diff.clone())));
        let r = object(es);
        assert(r@->Object_0 =~= t->Object_0);
        r
    }
}

/// One commit of `git/log`.
pub struct GitLogEntry {
    pub id: String,
    pub message: String,
    pub author: String,
    pub timestamp: i64,
}

impl GitLogEntry {
    /// The JSON object of this value.
    pub open spec fn tree(&self) -> JsonTree {
        JsonTree::Object(seq![("id"@, JsonTree::Str(self.id@)), ("message"@, JsonTree::Str(self.message@)), ("author"@, JsonTree::Str(self.author@)), ("timestamp"@, JsonTree::Number(signed_decimal(self.timestamp as int)))])
    }

    pub fn to_json(&self) -> (r: Json)
        ensures
            r@ == self.tree(),
    {
        let ghost t = self.tree();
        let mut es: Vec<(String, Json)> = Vec::new();
        es.push(object_entry("id", Json::Str(self.id.clone())));
        es.push(object_entry("message", Json::Str(self.message.clone())));
        es.push(object_entry("author", Json::Str(self.author.clone())));
        es.push(object_entry("timestamp", Json::Number(i64_text(self.timestamp))));
        let r = object(es);
        assert(r@->Object_0 =~= t->Object_0);
        r
    }
}

/// One branch of `git/branches`.
pub struct GitBranchEntry {
    pub name: String,
    pub is_head: bool,
}

impl GitBranchEntry {
    /// The JSON object of this value.
    pub open spec fn tree(&self) -> JsonTree {
        JsonTree::Object(seq![("name"@, JsonTree::Str(self.name@)), ("is_head"@, JsonTree::Bool(self.is_head))])
    }

    pub fn to_json(&self) -> (r: Json)
        ensures
            r@ == self.tree(),
    {
        let ghost t = self.tree();
        let mut es: Vec<(String, Json)> = Vec::new();
        es.push(object_entry("name", Json::Str(self.name.clone())));
        es.push(object_entry("is_head", Json::Bool(self.is_head)));
        let r = object(es);
        assert(r@->Object_0 =~= t->Object_0);
        r
    }
}

/// Result of `git/commit`: the new commit's hash.
pub struct GitCommitResult {
    pub hash: String,
}

impl GitCommitResult {
    /// The JSON object of this value.
    pub open spec fn tree(&self) -> JsonTree {
        JsonTree::Object(seq![("hash"@, JsonTree::Str(self.hash@))])
    }

    pub fn to_json(&self) -> (r: Json)
        ensures
            r@ == self.tree(),
    {
        let ghost t = self.tree();
        let mut es: Vec<(String, Json)> = Vec::new();
        es.push(object_entry("hash", Json::Str(self.hash.clone())));
        let r = object(es);
        assert(r@->Object_0 =~= t->Object_0);
        r
    }
}

/// Result of `terminal/create`: the new terminal's identifier.
pub struct TermCreateResult {
    pub id: String,
}

impl TermCreateResult {
    /// The JSON object of this value.
    pub open spec fn tree(&self) -> JsonTree {
        JsonTree::Object(seq![("id"@, JsonTree::Str(self.id@))])
    }

    pub fn to_json(&self) -> (r: Json)
        ensures
            r@ == self.tree(),
    {
        let ghost t = self.tree();
        let mut es: Vec<(String, Json)> = Vec::new();
        es.push(object_entry("id", Json::Str(self.id.clone())));
        let r = object(es);
        assert(r@->Object_0 =~= t->Object_0);
        r
    }
}

/// Result of `terminal/data`: the output read, in URL-safe base64.
pub struct TermDataResult {
    pub output: String,
}

impl TermDataResult {
    /// The JSON object of this value.
    pub open spec fn tree(&self) -> JsonTree {
        JsonTree::Object(seq![("output"@, JsonTree::Str(self.output@))])
    }

    pub fn to_json(&self) -> (r: Json)
        ensures
            r@ == self.tree(),
    {
        let ghost t = self.tree();
        let mut es: Vec<(String, Json)> = Vec::new();
        es.push(object_entry("output", Json::Str(self.output.clone())));
        let r = object(es);
        assert(r@->Object_0 =~= t->Object_0);
        r
    }
}

/// Result of `lsp/hover`.
pub struct LspHoverResult {
    pub contents: String,
}

impl LspHoverResult {
    /// The JSON object of this value.
    pub open spec fn tree(&self) -> JsonTree {
        JsonTree::Object(seq![("contents"@, JsonTree::Str(self.contents@))])
    }

    pub fn to_json(&self) -> (r: Json)
        ensures
            r@ == self.tree(),
    {
        let ghost t = self.tree();
        let mut es: Vec<(String, Json)> = Vec::new();
        es.push(object_entry("contents", Json::Str(self.contents.clone())));
        let r = object(es);
        assert(r@->Object_0 =~= t->Object_0);
        r
    }
}

/// One diagnostic of `lsp/diagnostics`.
pub struct LspDiagnostic {
    pub message: String,
    pub severity: String,
}

impl LspDiagnostic {
    /// The JSON object of this value.
    pub open spec fn tree(&self) -> JsonTree {
        JsonTree::Object(seq![("message"@, JsonTree::Str(self.message@)), ("severity"@, JsonTree::Str(self.severity@))])
    }

    pub fn to_json(&self) -> (r: Json)
        ensures
            r@ == self.tree(),
    {
        let ghost t = self.tree();
        let mut es: Vec<(String, Json)> = Vec::new();
        es.push(object_entry("message", Json::Str(self.message.clone())));
        es.push(object_entry("severity", Json::Str(self.severity.clone())));
        let r = object(es);
        assert(r@->Object_0 =~= t->Object_0);
        r
    }
}

/// A piece of an AI answer; `done` marks the last one.
pub struct AiStreamChunk {
    pub text: String,
    pub done: bool,
}

impl AiStreamChunk {
    /// The JSON object of this value.
    pub open spec fn tree(&self) -> JsonTree {
        JsonTree::Object(seq![("text"@, JsonTree::Str(self.text@)), ("done"@, JsonTree::Bool(self.done))])
    }

    pub fn to_json(&self) -> (r: Json)
        ensures
            r@ == self.tree(),
    {
        let ghost t = self.tree();
        let mut es: Vec<(String, Json)> = Vec::new();
        es.push(object_entry("text", Json::Str(self.text.clone())));
        es.push(object_entry("done", Json::Bool(self.done)));
        let r = object(es);
        assert(r@->Object_0 =~= t->Object_0);
        r
    }
}

/// Result of `git/status`: the current branch and the changed paths.
pub struct GitStatusResult {
    pub branch: String,
    pub entries: Vec<GitStatusEntry>,
}

impl GitStatusResult {
    /// The JSON object of this value.
    pub open spec fn tree(&self) -> JsonTree {
        JsonTree::Object(
            seq![
                ("branch"@, JsonTree::Str(self.branch@)),
                ("entries"@, JsonTree::Array(Seq::new(self.entries@.len(), |i: int| self.entries@[i].tree()))),
            ],
        )
    }

    pub fn to_json(&self) -> (r: Json)
        ensures
            r@ == self.tree(),
    {
        let ghost t = self.tree();
        let mut es: Vec<(String, Json)> = Vec::new();
        es.push(object_entry("branch", Json::Str(self.branch.clone())));
        es.push(object_entry("entries", status_entries_json(&self.entries)));
        let r = object(es);
        assert(r@->Object_0 =~= t->Object_0);
        r
    }
}

/// The result `{"ok": true}` of methods that only succeed or fail.
pub open spec fn ok_tree() -> JsonTree {
    JsonTree::Object(seq![("ok"@, JsonTree::Bool(true))])
}

pub fn ok_result() -> (r: Json)
    ensures
        r@ == ok_tree(),
{
    let mut es: Vec<(String, Json)> = Vec::new();
    es.push(object_entry("ok", Json::Bool(true)));
    let r = object(es);
    assert(r@->Object_0 =~= ok_tree()->Object_0);
    r
}

/// The result of `fs/list`: the entries, in order.
pub fn fs_list_result(items: &Vec<FsEntry>) -> (r: Json)
    ensures
        r@ == JsonTree::Array(Seq::new(items@.len(), |i: int| items@[i].tree())),
{
    let mut out: Vec<Json> = Vec::new();
    let mut i: usize = 0;
    while i < items.len()
        invariant
            i <= items@.len(),
            out@.len() == i,
            forall|k: int| 0 <= k < i ==> (#[trigger] out@[k])@ == items@[k].tree(),
        decreases items@.len() - i,
    {
        out.push(items[i].to_json());
        i = i + 1;
    }
    let r = array(out);
    assert(r@->Array_0 =~= Seq::new(items@.len(), |i: int| items@[i].tree()));
    r
}

/// The result of `git/log`: the commits, in the order given.
pub fn git_log_result(items: &Vec<GitLogEntry>) -> (r: Json)
    ensures
        r@ == JsonTree::Array(Seq::new(items@.len(), |i: int| items@[i].tree())),
{
    let mut out: Vec<Json> = Vec::new();
    let mut i: usize = 0;
    while i < items.len()
        invariant
            i <= items@.len(),
            out@.len() == i,
            forall|k: int| 0 <= k < i ==> (#[trigger] out@[k])@ == items@[k].tree(),
        decreases items@.len() - i,
    {
        out.push(items[i].to_json());
        i = i + 1;
    }
    let r = array(out);
    assert(r@->Array_0 =~= Seq::new(items@.len(), |i: int| items@[i].tree()));
    r
}

/// The result of `git/branches`.
pub fn git_branches_result(items: &Vec<GitBranchEntry>) -> (r: Json)
    ensures
        r@ == JsonTree::Array(Seq::new(items@.len(), |i: int| items@[i].tree())),
{
    let mut out: Vec<Json> = Vec::new();
    let mut i: usize = 0;
    while i < items.len()
        invariant
            i <= items@.len(),
            out@.len() == i,
            forall|k: int| 0 <= k < i ==> (#[trigger] out@[k])@ == items@[k].tree(),
        decreases items@.len() - i,
    {
        out.push(items[i].to_json());
        i = i + 1;
    }
    let r = array(out);
    assert(r@->Array_0 =~= Seq::new(items@.len(), |i: int| items@[i].tree()));
    r
}

/// The changed paths of `git/status`.
pub fn status_entries_json(items: &Vec<GitStatusEntry>) -> (r: Json)
    ensures
        r@ == JsonTree::Array(Seq::new(items@.len(), |i: int| items@[i].tree())),
{
    let mut out: Vec<Json> = Vec::new();
    let mut i: usize = 0;
    while i < items.len()
        invariant
            i <= items@.len(),
            out@.len() == i,
            forall|k: int| 0 <= k < i ==> (#[trigger] out@[k])@ == items@[k].tree(),
        decreases items@.len() - i,
    {
        out.push(items[i].to_json());
        i = i + 1;
    }
    let r = array(out);
    assert(r@->Array_0 =~= Seq::new(items@.len(), |i: int| items@[i].tree()));
    r
}

/// The result of `lsp/diagnostics`.
pub fn lsp_diagnostics_result(items: &Vec<LspDiagnostic>) -> (r: Json)
    ensures
        r@ == JsonTree::Array(Seq::new(items@.len(), |i: int| items@[i].tree())),
{
    let mut out: Vec<Json> = Vec::new();
    let mut i: usize = 0;
    while i < items.len()
        invariant
            i <= items@.len(),
            out@.len() == i,
            forall|k: int| 0 <= k < i ==> (#[trigger] out@[k])@ == items@[k].tree(),
        decreases items@.len() - i,
    {
        out.push(items[i].to_json());
        i = i + 1;
    }
    let r = array(out);
    assert(r@->Array_0 =~= Seq::new(items@.len(), |i: int| items@[i].tree()));
    r
}


} // verus!
