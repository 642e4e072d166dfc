//! The decisions of the command-line client: which engines a search uses, how
//! much of the results it shows, and what a line typed in the interactive mode
//! asks for.
use vstd::prelude::*;
use crate::text::{concat3, decimal, join_strs, joined, lowercase, owned, split_on, split_str, str_eq, strs, to_lower,
    trim, trimmed, usize_to_decimal};

verus! {

/// Which engines a search runs on.
#[derive(Debug, Clone)]
pub enum SearchMode {
    /// Every engine.
    Global,
    /// The engines named.
    Custom(Vec<String>),
}

/// The names of the engines of a custom mode, if it is one.
pub open spec fn custom_names(m: SearchMode) -> Option<Seq<Seq<char>>> {
    match m {
        SearchMode::Global => None,
        SearchMode::Custom(v) => Some(strs(v@)),
    }
}

/// The engine names of `--engines`: its pieces between commas, trimmed.
pub open spec fn engine_names(arg: Seq<char>) -> Seq<Seq<char>> {
    split_on(arg, ',').map_values(|p: Seq<char>| trimmed(p))
}

/// The mode and engine list of a search: every engine with `--global` or
/// without `--engines`, else the engines it names.
pub fn search_plan(use_global: bool, engines: Option<&str>) -> (r: (SearchMode, Vec<String>))
    ensures
        use_global || engines is None ==> custom_names(r.0) is None && r.1@.len() == 0,
        !use_global && engines is Some ==> custom_names(r.0) == Some(engine_names(engines->0@))
            && strs(r.1@) == engine_names(engines->0@),
{
    if use_global {
        return (SearchMode::Global, Vec::new());
    }
    match engines {
        Some(e) => {
            let pieces = split_str(e, ',');
            let mut names: Vec<String> = Vec::new();
            let mut copy: Vec<String> = Vec::new();
            let mut i: usize = 0;
            let ghost ps = strs(pieces@);
            while i < pieces.len()
                invariant
                    i <= pieces@.len(),
                    ps == strs(pieces@),
                    strs(names@) == ps.take(i as int).map_values(|p: Seq<char>| trimmed(p)),
                    strs(copy@) == strs(names@),
                decreases pieces@.len() - i,
            {
                let t = trim(pieces[i].as_str());
                let t2 = owned(t.as_str());
                let ghost before = strs(names@);
                names.push(t);
                copy.push(t2);
                assert(ps.take(i + 1).map_values(|p: Seq<char>| trimmed(p))
                    =~= ps.take(i as int).map_values(|p: Seq<char>| trimmed(p)).push(trimmed(ps[i as int])));
                assert(strs(names@) =~= before.push(trimmed(ps[i as int])));
                assert(strs(copy@) =~= before.push(trimmed(ps[i as int])));
                i = i + 1;
            }
            assert(ps.take(i as int) =~= ps);
            (SearchMode::Custom(names), copy)
        },
        None => (SearchMode::Global, Vec::new()),
    }
}

/// What the mode is called on screen.
pub fn mode_label(mode: &SearchMode) -> (s: &'static str)
    ensures
        s@ == (if mode is Global { "全局模式（所有引擎）"@ } else { "配置模式"@ }),
{
    match mode {
        SearchMode::Global => "全局模式（所有引擎）",
        SearchMode::Custom(_) => "配置模式",
    }
}

/// The engines shown before a search: those configured, else every engine in
/// the global mode, else the default engines.
pub fn engines_label(mode: &SearchMode, configured: &Vec<String>, global: &Vec<String>) -> (s: String)
    ensures
        configured@.len() > 0 ==> s@ == joined(strs(configured@), ", "@),
        configured@.len() == 0 && mode is Global ==> s@ == joined(strs(global@), ", "@),
        configured@.len() == 0 && mode is Custom ==> s@ == "默认引擎"@,
{
    if configured.len() > 0 {
        join_strs(configured, ", ")
    } else {
        match mode {
            SearchMode::Global => join_strs(global, ", "),
            SearchMode::Custom(_) => owned("默认引擎"),
        }
    }
}

/// How many results are shown: at most 50 with `--verbose`, else at most 20.
pub fn shown_count(total: usize, verbose: bool) -> (n: usize)
    ensures
        n == (if verbose { if total < 50 { total } else { 50 } } else { if total < 20 { total } else { 20 } }),
{
    let cap: usize = if verbose { 50 } else { 20 };
    if total < cap { total } else { cap }
}

/// The line after the shown results when some are left out.
pub fn more_results_note(total: usize, shown: usize) -> (s: String)
    requires
        shown <= total,
    ensures
        s@ == "... 还有 "@ + decimal((total - shown) as nat) + " 个结果（使用 --verbose 查看更多）"@,
{
    let d = usize_to_decimal(total - shown);
    concat3("... 还有 ", d.as_str(), " 个结果（使用 --verbose 查看更多）")
}

/// The number of bytes of text in UTF-8.
pub open spec fn byte_len(s: Seq<char>) -> nat {
    vstd::utf8::encode_utf8(s).len()
}

/// The number of bytes of a character in UTF-8.
fn char_bytes(c: char) -> (n: usize)
    ensures
        n == vstd::utf8::encode_scalar(c as u32).len(),
        1 <= n <= 4,
{
    let v = c as u32;
    if v <= 0x7F {
        1
    } else if v <= 0x7FF {
        2
    } else if v <= 0xFFFF {
        3
    } else {
        4
    }
}

proof fn lemma_byte_len_step(s: Seq<char>, k: int)
    requires
        0 <= k < s.len(),
    ensures
        byte_len(s.take(k + 1)) == byte_len(s.take(k)) + vstd::utf8::encode_scalar(s[k] as u32).len(),
    decreases k,
{
    if k == 0 {
        let t = s.take(1);
        assert(t.drop_first() =~= Seq::<char>::empty());
        assert(s.take(0) =~= Seq::<char>::empty());
    } else {
        let t = s.drop_first();
        lemma_byte_len_step(t, k - 1);
        assert(s.take(k + 1).drop_first() =~= t.take(k));
        assert(s.take(k).drop_first() =~= t.take(k - 1));
        assert(s.take(k + 1)[0] == s[0]);
        assert(s.take(k)[0] == s[0]);
        assert(t[k - 1] == s[k]);
    }
}

/// The summary of a result's content: the content itself up to 200 bytes,
/// else its longest prefix of whole characters within 200 bytes and `...`.
pub fn content_preview(content: &str) -> (r: String)
    ensures
        byte_len(content@) <= 200 ==> r@ == content@,
        byte_len(content@) > 200 ==> exists|k: int| 0 <= k < content@.len()
            && r@ == content@.take(k) + "..."@
            && byte_len(content@.take(k)) <= 200 && #[trigger] byte_len(content@.take(k + 1)) > 200,
{
    let n = content.unicode_len();
    let mut k: usize = 0;
    let mut bytes: usize = 0;
    assert(content@.take(0) =~= Seq::<char>::empty());
    while k < n
        invariant
            k <= n,
            n == content@.len(),
            bytes == byte_len(content@.take(k as int)),
            bytes <= 200,
        decreases n - k,
    {
        let w = char_bytes(content.get_char(k));
        proof { lemma_byte_len_step(content@, k as int); }
        if bytes + w > 200 {
            let mut r = owned(content.substring_char(0, k));
            r.append("...");
            proof {
                assert(byte_len(content@) > 200) by {
                    lemma_take_bytes_grow(content@, k + 1);
                }
                assert(content@.subrange(0, k as int) =~= content@.take(k as int));
            }
            return r;
        }
        bytes = bytes + w;
        k = k + 1;
    }
    assert(content@.take(k as int) =~= content@);
    owned(content)
}

proof fn lemma_take_bytes_grow(s: Seq<char>, k: int)
    requires
        0 <= k <= s.len(),
    ensures
        byte_len(s.take(k)) <= byte_len(s),
    decreases s.len() - k,
{
    if k < s.len() {
        lemma_byte_len_step(s, k);
        lemma_take_bytes_grow(s, k + 1);
    } else {
        assert(s.take(k) =~= s);
    }
}

/// What a line typed in the interactive mode asks for.
#[derive(Debug, Clone)]
pub enum CliCommand {
    /// Nothing (a blank line).
    Skip,
    /// Leave.
    Quit,
    /// List the engines.
    ListEngines,
    /// Show the statistics.
    ShowStats,
    /// Choose another mode.
    ChooseMode,
    /// Search for the text.
    Search(String),
}

/// What a typed line asks for: after trimming, nothing for a blank line;
/// `quit`/`exit`, `engines`, `stats` and `mode` in any case are commands; any
/// other text is searched for as typed.
pub open spec fn command_of(line: Seq<char>) -> CliCommandKind {
    let t = trimmed(line);
    let l = lowercase(t);
    if t.len() == 0 {
        CliCommandKind::Skip
    } else if l == "quit"@ || l == "exit"@ {
        CliCommandKind::Quit
    } else if l == "engines"@ {
        CliCommandKind::ListEngines
    } else if l == "stats"@ {
        CliCommandKind::ShowStats
    } else if l == "mode"@ {
        CliCommandKind::ChooseMode
    } else {
        CliCommandKind::Search(t)
    }
}

/// A command, with the text of a search as a sequence.
pub enum CliCommandKind {
    /// Nothing.
    Skip,
    /// Leave.
    Quit,
    /// List the engines.
    ListEngines,
    /// Show the statistics.
    ShowStats,
    /// Choose another mode.
    ChooseMode,
    /// Search for the text.
    Search(Seq<char>),
}

impl CliCommand {
    /// The command with its text as a sequence.
    pub open spec fn kind(&self) -> CliCommandKind {
        match self {
            CliCommand::Skip => CliCommandKind::Skip,
            CliCommand::Quit => CliCommandKind::Quit,
            CliCommand::ListEngines => CliCommandKind::ListEngines,
            CliCommand::ShowStats => CliCommandKind::ShowStats,
            CliCommand::ChooseMode => CliCommandKind::ChooseMode,
            CliCommand::Search(t) => CliCommandKind::Search(t@),
        }
    }
}

/// What a line typed in the interactive mode asks for.
pub fn interactive_command(line: &str) -> (c: CliCommand)
    ensures
        c.kind() == command_of(line@),
{
    let t = trim(line);
    if t.unicode_len() == 0 {
        return CliCommand::Skip;
    }
    let l = to_lower(t.as_str());
    if str_eq(l.as_str(), "quit") || str_eq(l.as_str(), "exit") {
        CliCommand::Quit
    } else if str_eq(l.as_str(), "engines") {
        CliCommand::ListEngines
    } else if str_eq(l.as_str(), "stats") {
        CliCommand::ShowStats
    } else if str_eq(l.as_str(), "mode") {
        CliCommand::ChooseMode
    } else {
        CliCommand::Search(t)
    }
}

/// The state of the interactive mode: its mode and the engines configured.
#[derive(Debug, Clone)]
pub struct InteractiveState {
    /// The mode.
    pub mode: SearchMode,
    /// The engines configured.
    pub engines: Vec<String>,
}

impl InteractiveState {
    /// The start: every engine, none configured.
    pub fn new() -> (s: Self)
        ensures
            s.mode is Global,
            s.engines@.len() == 0,
    {
        InteractiveState { mode: SearchMode::Global, engines: Vec::new() }
    }

    /// The answer to the mode choice `choice`: `1` chooses every engine and
    /// forgets the configured ones, `2` the configured engines; anything else
    /// keeps the mode and is refused (`false`).
    pub fn choose_mode(&mut self, choice: &str) -> (accepted: bool)
        ensures
            accepted == (trimmed(choice@) == "1"@ || trimmed(choice@) == "2"@),
            trimmed(choice@) == "1"@ ==> final(self).mode is Global && final(self).engines@.len() == 0,
            trimmed(choice@) == "2"@ ==> custom_names(final(self).mode) == Some(strs(old(self).engines@))
                && strs(final(self).engines@) == strs(old(self).engines@),
            !accepted ==> custom_names(final(self).mode) == custom_names(old(self).mode)
                && strs(final(self).engines@) == strs(old(self).engines@),
    {
        let t = trim(choice);
        proof { reveal_strlit("1"); reveal_strlit("2"); }
        assert("1"@ != "2"@) by {
            assert("1"@[0] != "2"@[0]);
        }
        if str_eq(t.as_str(), "1") {
            self.mode = SearchMode::Global;
            self.engines = Vec::new();
            true
        } else if str_eq(t.as_str(), "2") {
            let copy = copy_names(&self.engines);
            self.mode = SearchMode::Custom(copy);
            true
        } else {
            false
        }
    }

    /// The arguments of the search a line asks for in this state: every engine
    /// in the global mode, else the engines of the mode joined by commas.
    pub fn search_args(&self) -> (r: (bool, Option<String>))
        ensures
            self.mode is Global ==> r.0 && r.1 is None,
            self.mode matches SearchMode::Custom(v) ==> !r.0 && (r.1 matches Some(s) && s@ == joined(strs(v@), ","@)),
    {
        match &self.mode {
            SearchMode::Global => (true, None),
            SearchMode::Custom(v) => (false, Some(join_strs(v, ","))),
        }
    }
}

/// A copy of the names.
fn copy_names(v: &Vec<String>) -> (r: Vec<String>)
    ensures
        strs(r@) == strs(v@),
{
    let mut r: Vec<String> = Vec::new();
    let mut i: usize = 0;
    while i < v.len()
        invariant
            i <= v@.len(),
            strs(r@) == strs(v@).take(i as int),
        decreases v@.len() - i,
    {
        let ghost before = strs(r@);
        r.push(owned(v[i].as_str()));
        assert(strs(r@) =~= before.push(v@[i as int]@));
        assert(strs(r@) =~= strs(v@).take(i + 1));
        i = i + 1;
    }
    assert(strs(v@).take(i as int) =~= strs(v@));
    r
}

} // verus!
