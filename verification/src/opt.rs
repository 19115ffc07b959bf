//! Command-line options of the linker and the parser that reads them.

use crate::text::{
    appended, has_prefix, lemma_views_push, option_view, same_text, starts_with, tail_from, views,
};
use vstd::prelude::*;
use vstd::string::*;

verus! {

/// The per-item state that `--push-state` saves and `--pop-state` restores.
#[derive(Debug, Copy, Clone)]
pub struct OptStack {
    /// --as-needed
    pub as_needed: bool,
    /// -static
    pub link_static: bool,
}

#[derive(Debug, Clone)]
pub struct FileOpt {
    pub name: String,
    /// --as-needed
    pub as_needed: bool,
}

pub ghost struct FileOptView {
    pub name: Seq<char>,
    pub as_needed: bool,
}

impl View for FileOpt {
    type V = FileOptView;

    open spec fn view(&self) -> FileOptView {
        FileOptView { name: self.name@, as_needed: self.as_needed }
    }
}

#[derive(Debug, Clone)]
pub struct LibraryOpt {
    pub name: String,
    /// --as-needed
    pub as_needed: bool,
    /// -static
    pub link_static: bool,
}

pub ghost struct LibraryOptView {
    pub name: Seq<char>,
    pub as_needed: bool,
    pub link_static: bool,
}

impl View for LibraryOpt {
    type V = LibraryOptView;

    open spec fn view(&self) -> LibraryOptView {
        LibraryOptView {
            name: self.name@,
            as_needed: self.as_needed,
            link_static: self.link_static,
        }
    }
}

#[derive(Debug, Clone)]
pub enum ObjectFileOpt {
    /// ObjectFile
    File(FileOpt),
    /// -l namespec
    Library(LibraryOpt),
    /// --start-group
    StartGroup,
    /// --end-group
    EndGroup,
}

pub ghost enum ObjectFileOptView {
    File(FileOptView),
    Library(LibraryOptView),
    StartGroup,
    EndGroup,
}

impl View for ObjectFileOpt {
    type V = ObjectFileOptView;

    open spec fn view(&self) -> ObjectFileOptView {
        match self {
            ObjectFileOpt::File(f) => ObjectFileOptView::File(f@),
            ObjectFileOpt::Library(l) => ObjectFileOptView::Library(l@),
            ObjectFileOpt::StartGroup => ObjectFileOptView::StartGroup,
            ObjectFileOpt::EndGroup => ObjectFileOptView::EndGroup,
        }
    }
}

/// Which hash tables the dynamic section gets.
#[derive(Debug, Copy, Clone)]
pub struct HashStyle {
    pub sysv: bool,
    pub gnu: bool,
}

impl Default for HashStyle {
    fn default() -> (r: Self)
        ensures
            r.sysv,
            r.gnu,
    {
        Self { sysv: true, gnu: true }
    }
}

#[derive(Debug, Clone)]
pub struct Opt {
    /// --build-id
    pub build_id: bool,
    /// --eh-frame-hdr
    pub eh_frame_hdr: bool,
    /// -pie
    pub pie: bool,
    /// -shared
    pub shared: bool,
    /// -m emulation
    pub emulation: Option<String>,
    /// -o output
    pub output: Option<String>,
    /// -dynamic-linker
    pub dynamic_linker: Option<String>,
    /// -soname
    pub soname: Option<String>,
    /// -L searchdir
    pub search_dir: Vec<String>,
    /// --hash-style=sysv/gnu/both
    pub hash_style: HashStyle,
    /// ObjectFile
    pub obj_file: Vec<ObjectFileOpt>,
}

pub ghost struct OptView {
    pub build_id: bool,
    pub eh_frame_hdr: bool,
    pub pie: bool,
    pub shared: bool,
    pub emulation: Option<Seq<char>>,
    pub output: Option<Seq<char>>,
    pub dynamic_linker: Option<Seq<char>>,
    pub soname: Option<Seq<char>>,
    pub search_dir: Seq<Seq<char>>,
    pub hash_style: HashStyle,
    pub obj_file: Seq<ObjectFileOptView>,
}

impl View for Opt {
    type V = OptView;

    open spec fn view(&self) -> OptView {
        OptView {
            build_id: self.build_id,
            eh_frame_hdr: self.eh_frame_hdr,
            pie: self.pie,
            shared: self.shared,
            emulation: option_view(self.emulation),
            output: option_view(self.output),
            dynamic_linker: option_view(self.dynamic_linker),
            soname: option_view(self.soname),
            search_dir: views(self.search_dir@),
            hash_style: self.hash_style,
            obj_file: views(self.obj_file@),
        }
    }
}

/// The options before any argument is read: nothing set, both hash styles.
pub open spec fn default_opt() -> OptView {
    OptView {
        build_id: false,
        eh_frame_hdr: false,
        pie: false,
        shared: false,
        emulation: None,
        output: None,
        dynamic_linker: None,
        soname: None,
        search_dir: Seq::empty(),
        hash_style: HashStyle { sysv: true, gnu: true },
        obj_file: Seq::empty(),
    }
}

impl Default for Opt {
    fn default() -> (r: Self)
        ensures
            r@ == default_opt(),
    {
        let r = Opt {
            build_id: false,
            eh_frame_hdr: false,
            pie: false,
            shared: false,
            emulation: None,
            output: None,
            dynamic_linker: None,
            soname: None,
            search_dir: Vec::new(),
            hash_style: HashStyle::default(),
            obj_file: Vec::new(),
        };
        proof {
            assert(r@.search_dir =~= Seq::<Seq<char>>::empty());
            assert(r@.obj_file =~= Seq::<ObjectFileOptView>::empty());
        }
        r
    }
}

/// A flag that takes the next argument as its value.
#[derive(Debug, Copy, Clone, PartialEq, Eq, Structural)]
pub enum ValueFlag {
    DynamicLinker,
    Emulation,
    Output,
    Soname,
}

/// Why a command line was rejected.
#[derive(Debug, Clone)]
pub enum OptError {
    /// A flag that takes a value was the last argument.
    MissingValue(ValueFlag),
    /// An argument that begins with `-` and is no known flag.
    UnknownArgument(String),
    /// `--pop-state` with no state saved.
    UnbalancedPopState,
}

pub ghost enum OptErrorView {
    MissingValue(ValueFlag),
    UnknownArgument(Seq<char>),
    UnbalancedPopState,
}

impl View for OptError {
    type V = OptErrorView;

    open spec fn view(&self) -> OptErrorView {
        match self {
            OptError::MissingValue(f) => OptErrorView::MissingValue(*f),
            OptError::UnknownArgument(s) => OptErrorView::UnknownArgument(s@),
            OptError::UnbalancedPopState => OptErrorView::UnbalancedPopState,
        }
    }
}

impl OptError {
    /// The one-line diagnostic of this error.
    pub open spec fn text(self) -> Seq<char> {
        match self {
            OptError::MissingValue(ValueFlag::DynamicLinker) =>
                "Missing dynamic linker after -dynamic-linker"@,
            OptError::MissingValue(ValueFlag::Emulation) => "Missing emulation after -m"@,
            OptError::MissingValue(ValueFlag::Output) => "Missing output after -o"@,
            OptError::MissingValue(ValueFlag::Soname) => "Missing soname after -soname"@,
            OptError::UnknownArgument(s) => "Unknown argument: "@ + s@,
            OptError::UnbalancedPopState => "--pop-state without --push-state"@,
        }
    }

    /// Renders the one-line diagnostic of this error.
    pub fn message(&self) -> (r: String)
        ensures
            r@ == self.text(),
    {
        match self {
            OptError::MissingValue(ValueFlag::DynamicLinker) => String::from_str(
                "Missing dynamic linker after -dynamic-linker",
            ),
            OptError::MissingValue(ValueFlag::Emulation) => String::from_str(
                "Missing emulation after -m",
            ),
            OptError::MissingValue(ValueFlag::Output) => String::from_str(
                "Missing output after -o",
            ),
            OptError::MissingValue(ValueFlag::Soname) => String::from_str(
                "Missing soname after -soname",
            ),
            OptError::UnknownArgument(s) => appended("Unknown argument: ", s.as_str()),
            OptError::UnbalancedPopState => String::from_str("--pop-state without --push-state"),
        }
    }
}

/// What one argument is, judged by its own text.
#[derive(Debug, Copy, Clone, PartialEq, Eq, Structural)]
pub enum ArgKind {
    SearchDir,
    DynamicLinker,
    Library,
    Emulation,
    Output,
    Pie,
    Plugin,
    PluginOpt,
    Shared,
    Soname,
    Static,
    AsNeeded,
    BuildId,
    EhFrameHdr,
    EndGroup,
    HashStyle,
    StartGroup,
    PopState,
    PushState,
    Unknown,
    File,
}

/// The kind of an argument. Prefix flags are tried in the order in which they
/// are listed, so `-L` and `-l` win over every longer flag, and anything else
/// that begins with `-` is unknown.
pub open spec fn arg_kind(arg: Seq<char>) -> ArgKind {
    if has_prefix(arg, "-L"@) {
        ArgKind::SearchDir
    } else if arg == "-dynamic-linker"@ {
        ArgKind::DynamicLinker
    } else if has_prefix(arg, "-l"@) {
        ArgKind::Library
    } else if arg == "-m"@ {
        ArgKind::Emulation
    } else if arg == "-o"@ {
        ArgKind::Output
    } else if arg == "-pie"@ {
        ArgKind::Pie
    } else if arg == "-plugin"@ {
        ArgKind::Plugin
    } else if has_prefix(arg, "-plugin-opt="@) {
        ArgKind::PluginOpt
    } else if arg == "-shared"@ {
        ArgKind::Shared
    } else if arg == "-soname"@ {
        ArgKind::Soname
    } else if arg == "-static"@ {
        ArgKind::Static
    } else if arg == "--as-needed"@ {
        ArgKind::AsNeeded
    } else if arg == "--build-id"@ {
        ArgKind::BuildId
    } else if arg == "--eh-frame-hdr"@ {
        ArgKind::EhFrameHdr
    } else if arg == "--end-group"@ {
        ArgKind::EndGroup
    } else if has_prefix(arg, "--hash-style="@) {
        ArgKind::HashStyle
    } else if arg == "--start-group"@ {
        ArgKind::StartGroup
    } else if arg == "--pop-state"@ {
        ArgKind::PopState
    } else if arg == "--push-state"@ {
        ArgKind::PushState
    } else if has_prefix(arg, "-"@) {
        ArgKind::Unknown
    } else {
        ArgKind::File
    }
}

/// Computes the kind of an argument.
pub fn classify(arg: &str) -> (k: ArgKind)
    ensures
        k == arg_kind(arg@),
{
    if starts_with(arg, "-L") {
        ArgKind::SearchDir
    } else if same_text(arg, "-dynamic-linker") {
        ArgKind::DynamicLinker
    } else if starts_with(arg, "-l") {
        ArgKind::Library
    } else if same_text(arg, "-m") {
        ArgKind::Emulation
    } else if same_text(arg, "-o") {
        ArgKind::Output
    } else if same_text(arg, "-pie") {
        ArgKind::Pie
    } else if same_text(arg, "-plugin") {
        ArgKind::Plugin
    } else if starts_with(arg, "-plugin-opt=") {
        ArgKind::PluginOpt
    } else if same_text(arg, "-shared") {
        ArgKind::Shared
    } else if same_text(arg, "-soname") {
        ArgKind::Soname
    } else if same_text(arg, "-static") {
        ArgKind::Static
    } else if same_text(arg, "--as-needed") {
        ArgKind::AsNeeded
    } else if same_text(arg, "--build-id") {
        ArgKind::BuildId
    } else if same_text(arg, "--eh-frame-hdr") {
        ArgKind::EhFrameHdr
    } else if same_text(arg, "--end-group") {
        ArgKind::EndGroup
    } else if starts_with(arg, "--hash-style=") {
        ArgKind::HashStyle
    } else if same_text(arg, "--start-group") {
        ArgKind::StartGroup
    } else if same_text(arg, "--pop-state") {
        ArgKind::PopState
    } else if same_text(arg, "--push-state") {
        ArgKind::PushState
    } else if starts_with(arg, "-") {
        ArgKind::Unknown
    } else {
        ArgKind::File
    }
}

/// The hash style that a `--hash-style=` argument selects; `before` where its
/// value is none of `sysv`, `gnu` and `both`.
pub open spec fn hash_style_of(arg: Seq<char>, before: HashStyle) -> HashStyle {
    if arg == "--hash-style=sysv"@ {
        HashStyle { sysv: true, gnu: false }
    } else if arg == "--hash-style=gnu"@ {
        HashStyle { sysv: false, gnu: true }
    } else if arg == "--hash-style=both"@ {
        HashStyle { sysv: true, gnu: true }
    } else {
        before
    }
}

/// Computes the hash style that a `--hash-style=` argument selects.
pub fn select_hash_style(arg: &str, before: HashStyle) -> (r: HashStyle)
    ensures
        r == hash_style_of(arg@, before),
{
    if same_text(arg, "--hash-style=sysv") {
        HashStyle { sysv: true, gnu: false }
    } else if same_text(arg, "--hash-style=gnu") {
        HashStyle { sysv: false, gnu: true }
    } else if same_text(arg, "--hash-style=both") {
        HashStyle { sysv: true, gnu: true }
    } else {
        before
    }
}

/// What the parser has gathered after some arguments.
pub ghost struct ParseState {
    pub opt: OptView,
    pub cur: OptStack,
    pub stack: Seq<OptStack>,
}

/// The state in which parsing starts.
pub open spec fn initial_state() -> ParseState {
    ParseState {
        opt: default_opt(),
        cur: OptStack { as_needed: false, link_static: false },
        stack: Seq::empty(),
    }
}

/// The state after a flag that takes a value has been given `value`.
pub open spec fn with_value(opt: OptView, flag: ValueFlag, value: Seq<char>) -> OptView {
    match flag {
        ValueFlag::DynamicLinker => OptView { dynamic_linker: Some(value), ..opt },
        ValueFlag::Emulation => OptView { emulation: Some(value), ..opt },
        ValueFlag::Output => OptView { output: Some(value), ..opt },
        ValueFlag::Soname => OptView { soname: Some(value), ..opt },
    }
}

/// The flag behind an argument kind that takes a value.
pub open spec fn value_flag(kind: ArgKind) -> Option<ValueFlag> {
    match kind {
        ArgKind::DynamicLinker => Some(ValueFlag::DynamicLinker),
        ArgKind::Emulation => Some(ValueFlag::Emulation),
        ArgKind::Output => Some(ValueFlag::Output),
        ArgKind::Soname => Some(ValueFlag::Soname),
        _ => None,
    }
}

/// The state after an argument that stands alone: every kind but those that
/// take a value, `-plugin`, `--pop-state` and an unknown flag.
pub open spec fn after_single(st: ParseState, kind: ArgKind, arg: Seq<char>) -> ParseState {
    let opt = st.opt;
    match kind {
        ArgKind::SearchDir => ParseState {
            opt: OptView { search_dir: opt.search_dir.push(arg.skip(2)), ..opt },
            ..st
        },
        ArgKind::Library => ParseState {
            opt: OptView {
                obj_file: opt.obj_file.push(
                    ObjectFileOptView::Library(
                        LibraryOptView {
                            name: arg.skip(2),
                            as_needed: st.cur.as_needed,
                            link_static: st.cur.link_static,
                        },
                    ),
                ),
                ..opt
            },
            ..st
        },
        ArgKind::Pie => ParseState { opt: OptView { pie: true, ..opt }, ..st },
        ArgKind::Shared => ParseState { opt: OptView { shared: true, ..opt }, ..st },
        ArgKind::Static => ParseState { cur: OptStack { link_static: true, ..st.cur }, ..st },
        ArgKind::AsNeeded => ParseState { cur: OptStack { as_needed: true, ..st.cur }, ..st },
        ArgKind::BuildId => ParseState { opt: OptView { build_id: true, ..opt }, ..st },
        ArgKind::EhFrameHdr => ParseState { opt: OptView { eh_frame_hdr: true, ..opt }, ..st },
        ArgKind::EndGroup => ParseState {
            opt: OptView { obj_file: opt.obj_file.push(ObjectFileOptView::EndGroup), ..opt },
            ..st
        },
        ArgKind::StartGroup => ParseState {
            opt: OptView { obj_file: opt.obj_file.push(ObjectFileOptView::StartGroup), ..opt },
            ..st
        },
        ArgKind::HashStyle => ParseState {
            opt: OptView { hash_style: hash_style_of(arg, opt.hash_style), ..opt },
            ..st
        },
        ArgKind::PushState => ParseState { stack: st.stack.push(st.cur), ..st },
        ArgKind::File => ParseState {
            opt: OptView {
                obj_file: opt.obj_file.push(
                    ObjectFileOptView::File(
                        FileOptView { name: arg, as_needed: st.cur.as_needed },
                    ),
                ),
                ..opt
            },
            ..st
        },
        _ => st,
    }
}

/// The result of parsing the arguments from position `i` on, when the ones
/// before it have led to `st`.
pub open spec fn parse_from(args: Seq<Seq<char>>, i: int, st: ParseState) -> Result<
    OptView,
    OptErrorView,
>
    decreases args.len() + 1 - i,
{
    if i < 0 || i >= args.len() {
        Ok(st.opt)
    } else {
        let arg = args[i];
        let kind = arg_kind(arg);
        match kind {
            ArgKind::DynamicLinker | ArgKind::Emulation | ArgKind::Output | ArgKind::Soname => {
                let flag = value_flag(kind).unwrap();
                if i + 1 < args.len() {
                    parse_from(
                        args,
                        i + 2,
                        ParseState { opt: with_value(st.opt, flag, args[i + 1]), ..st },
                    )
                } else {
                    Err(OptErrorView::MissingValue(flag))
                }
            },
            ArgKind::Plugin => parse_from(args, i + 2, st),
            ArgKind::PopState => {
                if st.stack.len() > 0 {
                    parse_from(
                        args,
                        i + 1,
                        ParseState { cur: st.stack.last(), stack: st.stack.drop_last(), ..st },
                    )
                } else {
                    Err(OptErrorView::UnbalancedPopState)
                }
            },
            ArgKind::Unknown => Err(OptErrorView::UnknownArgument(arg)),
            _ => parse_from(args, i + 1, after_single(st, kind, arg)),
        }
    }
}

/// What a command line means: the options it sets, or why it is rejected.
pub open spec fn parsed(args: Seq<Seq<char>>) -> Result<OptView, OptErrorView> {
    parse_from(args, 0, initial_state())
}

/// The view of a parser's result.
pub open spec fn result_view(r: Result<Opt, OptError>) -> Result<OptView, OptErrorView> {
    match r {
        Ok(o) => Ok(o@),
        Err(e) => Err(e@),
    }
}

/// Stores the value of a flag that takes one.
fn set_value(opt: &mut Opt, flag: ValueFlag, value: String)
    ensures
        final(opt)@ == with_value(old(opt)@, flag, value@),
{
    match flag {
        ValueFlag::DynamicLinker => {
            opt.dynamic_linker = Some(value);
        },
        ValueFlag::Emulation => {
            opt.emulation = Some(value);
        },
        ValueFlag::Output => {
            opt.output = Some(value);
        },
        ValueFlag::Soname => {
            opt.soname = Some(value);
        },
    }
}

/// Appends one input to the ordered list of inputs.
fn push_input(opt: &mut Opt, item: ObjectFileOpt)
    ensures
        final(opt)@ == (OptView { obj_file: old(opt)@.obj_file.push(item@), ..old(opt)@ }),
{
    proof {
        lemma_views_push(opt.obj_file@, item);
    }
    opt.obj_file.push(item);
}

/// Appends one library search directory.
fn push_search_dir(opt: &mut Opt, dir: String)
    ensures
        final(opt)@ == (OptView { search_dir: old(opt)@.search_dir.push(dir@), ..old(opt)@ }),
{
    proof {
        lemma_views_push(opt.search_dir@, dir);
    }
    opt.search_dir.push(dir);
}

/// Parses the arguments of a command line, the program's name left out.
///
/// Flags are read from left to right. `-static` and `--as-needed` hold for the
/// inputs named after them, until `--pop-state` restores what `--push-state`
/// saved. A flag that takes a value and is the last argument, an unknown flag
/// and a `--pop-state` with nothing saved are errors.
pub fn parse_opts(args: &Vec<String>) -> (r: Result<Opt, OptError>)
    ensures
        result_view(r) == parsed(views(args@)),
{
    let mut opt = Opt::default();
    let mut cur = OptStack { as_needed: false, link_static: false };
    let mut stack: Vec<OptStack> = Vec::new();
    let ghost av = views(args@);
    let n = args.len();
    let mut i: usize = 0;
    while i < n
        invariant
            i <= n,
            n == args@.len(),
            av == views(args@),
            parsed(av) == parse_from(av, i as int, ParseState { opt: opt@, cur, stack: stack@ }),
        decreases n - i,
    {
        let arg = args[i].as_str();
        let kind = classify(arg);
        let ghost st = ParseState { opt: opt@, cur, stack: stack@ };
        assert(av[i as int] == arg@);
        match kind {
            ArgKind::DynamicLinker | ArgKind::Emulation | ArgKind::Output | ArgKind::Soname => {
                let flag = match kind {
                    ArgKind::DynamicLinker => ValueFlag::DynamicLinker,
                    ArgKind::Emulation => ValueFlag::Emulation,
                    ArgKind::Output => ValueFlag::Output,
                    _ => ValueFlag::Soname,
                };
                if i + 1 < n {
                    assert(av[i + 1] == args@[i + 1]@);
                    set_value(&mut opt, flag, args[i + 1].clone());
                    i += 2;
                } else {
                    return Err(OptError::MissingValue(flag));
                }
            },
            ArgKind::Plugin => {
                proof {
                    if i + 1 >= n {
                        assert(parse_from(av, i + 2, st) == Ok::<OptView, OptErrorView>(st.opt));
                        assert(parse_from(av, n as int, st) == Ok::<OptView, OptErrorView>(st.opt));
                    }
                }
                i = if i + 1 < n {
                    i + 2
                } else {
                    n
                };
            },
            ArgKind::PopState => {
                match stack.pop() {
                    Some(saved) => {
                        cur = saved;
                    },
                    None => {
                        return Err(OptError::UnbalancedPopState);
                    },
                }
                i += 1;
            },
            ArgKind::Unknown => {
                return Err(OptError::UnknownArgument(String::from_str(arg)));
            },
            ArgKind::SearchDir => {
                proof {
                    reveal_strlit("-L");
                }
                push_search_dir(&mut opt, tail_from(arg, 2));
                i += 1;
            },
            ArgKind::Library => {
                proof {
                    reveal_strlit("-l");
                }
                push_input(
                    &mut opt,
                    ObjectFileOpt::Library(
                        LibraryOpt {
                            name: tail_from(arg, 2),
                            as_needed: cur.as_needed,
                            link_static: cur.link_static,
                        },
                    ),
                );
                i += 1;
            },
            ArgKind::Pie => {
                opt.pie = true;
                i += 1;
            },
            ArgKind::PluginOpt => {
                i += 1;
            },
            ArgKind::Shared => {
                opt.shared = true;
                i += 1;
            },
            ArgKind::Static => {
                cur.link_static = true;
                i += 1;
            },
            ArgKind::AsNeeded => {
                cur.as_needed = true;
                i += 1;
            },
            ArgKind::BuildId => {
                opt.build_id = true;
                i += 1;
            },
            ArgKind::EhFrameHdr => {
                opt.eh_frame_hdr = true;
                i += 1;
            },
            ArgKind::EndGroup => {
                push_input(&mut opt, ObjectFileOpt::EndGroup);
                i += 1;
            },
            ArgKind::StartGroup => {
                push_input(&mut opt, ObjectFileOpt::StartGroup);
                i += 1;
            },
            ArgKind::HashStyle => {
                opt.hash_style = select_hash_style(arg, opt.hash_style);
                i += 1;
            },
            ArgKind::PushState => {
                stack.push(cur);
                i += 1;
            },
            ArgKind::File => {
                push_input(
                    &mut opt,
                    ObjectFileOpt::File(
                        FileOpt { name: String::from_str(arg), as_needed: cur.as_needed },
                    ),
                );
                i += 1;
            },
        }
    }
    Ok(opt)
}

} // verus!
