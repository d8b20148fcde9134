//! Rewrites the JavaScript glue that wasm-bindgen emits into a module that a
//! browser extension with webpack can load: the wasm file is fetched and
//! instantiated by hand, with the exported functions wired in.

use vstd::prelude::*;

use crate::text::{begins_at, begins_with, char_views, chars_of, remove_all, remove_all_of, split_words, text_of, texts, words};

verus! {

/// What the rewriter keeps of a glue file.
pub struct Module {
    /// The name the glue imports the wasm module under.
    pub name: String,
    /// Where the wasm module is fetched from, as written in the import.
    pub path: String,
    /// The names of the exported functions, in order.
    pub exports: Vec<String>,
    /// The glue's other lines, joined with newlines.
    pub body: String,
}

/// One stub entry per export: `name: function() { },` on a line of its own.
pub open spec fn placeholder_entries(exports: Seq<String>) -> Seq<char>
    decreases exports.len(),
{
    if exports.len() == 0 {
        Seq::empty()
    } else {
        placeholder_entries(exports.drop_last()) + "        "@ + exports.last()@
            + ": function() { },\n"@
    }
}

/// One entry per export that binds the name to itself.
pub open spec fn export_entries(exports: Seq<String>) -> Seq<char>
    decreases exports.len(),
{
    if exports.len() == 0 {
        Seq::empty()
    } else {
        export_entries(exports.drop_last()) + "        "@ + exports.last()@ + ": "@
            + exports.last()@ + ",\n        "@
    }
}

/// The rewritten module.
pub open spec fn module_text(m: Module) -> Seq<char> {
    "let "@ + m.name@ + ";\nlet import_obj = {\n    './wasm': "@ + "    {\n"@ + export_entries(
        m.exports@,
    ) + "    }"@ + ",\n    __wbindgen_placeholder__: "@ + "    {\n"@ + placeholder_entries(
        m.exports@,
    ) + "    },"@ + "\n};\nexport const booted = fetch("@ + m.path@
        + ")\n    .then(res => arrayBuffer())\n    .then(bytes => {\n        return WebAssembly.instantiate(bytes, import_obj)\n            .then(obj => {\n            "@
        + m.name@ + " = obj.instance.exports;\n        });\n    });\n"@ + m.body@
}

impl Module {
    /// The rewritten module as text.
    pub fn to_string(self) -> (r: String)
        ensures
            r@ == module_text(self),
    {
        let mut placeholder = String::from_str("    {\n");
        let mut exports = String::from_str("    {\n");
        let mut i: usize = 0;
        while i < self.exports.len()
            invariant
                i <= self.exports@.len(),
                placeholder@ == "    {\n"@ + placeholder_entries(self.exports@.subrange(0, i as int)),
                exports@ == "    {\n"@ + export_entries(self.exports@.subrange(0, i as int)),
            decreases self.exports@.len() - i,
        {
            let export = self.exports[i].as_str();
            proof {
                let next = self.exports@.subrange(0, i + 1);
                assert(next.drop_last() =~= self.exports@.subrange(0, i as int));
                assert(next.last() == self.exports@[i as int]);
            }
            placeholder.append("        ");
            placeholder.append(export);
            placeholder.append(": function() { },\n");
            exports.append("        ");
            exports.append(export);
            exports.append(": ");
            exports.append(export);
            exports.append(",\n        ");
            proof {
                assert(placeholder@ =~= "    {\n"@ + placeholder_entries(self.exports@.subrange(0, i + 1)));
                assert(exports@ =~= "    {\n"@ + export_entries(self.exports@.subrange(0, i + 1)));
            }
            i = i + 1;
        }
        proof {
            assert(self.exports@.subrange(0, i as int) =~= self.exports@);
        }
        placeholder.append("    },");
        exports.append("    }");
        let mut out = String::from_str("let ");
        out.append(self.name.as_str());
        out.append(";\nlet import_obj = {\n    './wasm': ");
        out.append(exports.as_str());
        out.append(",\n    __wbindgen_placeholder__: ");
        out.append(placeholder.as_str());
        out.append("\n};\nexport const booted = fetch(");
        out.append(self.path.as_str());
        out.append(
            ")\n    .then(res => arrayBuffer())\n    .then(bytes => {\n        return WebAssembly.instantiate(bytes, import_obj)\n            .then(obj => {\n            ",
        );
        out.append(self.name.as_str());
        out.append(" = obj.instance.exports;\n        });\n    });\n");
        out.append(self.body.as_str());
        proof {
            assert(out@ =~= module_text(self));
        }
        out
    }
}

/// Why a glue file could not be read.
#[derive(Debug, PartialEq, Eq, Structural)]
pub enum GlueError {
    /// An import line names no module.
    MissingName,
    /// An import line has no path after its module name and `from`.
    MissingPath,
    /// An export line names no function.
    BadExport,
}

/// A line without the `\r` that ends it, if one does.
pub open spec fn strip_cr(line: Seq<char>) -> Seq<char> {
    if line.len() > 0 && line.last() == '\r' {
        line.drop_last()
    } else {
        line
    }
}

/// The lines of `cur + rest`, where `cur` is a line begun before `rest`.
pub open spec fn lines_from(rest: Seq<char>, cur: Seq<char>) -> Seq<Seq<char>>
    decreases rest.len(),
{
    if rest.len() == 0 {
        if cur.len() == 0 {
            Seq::empty()
        } else {
            seq![cur]
        }
    } else if rest[0] == '\n' {
        seq![strip_cr(cur)] + lines_from(rest.drop_first(), Seq::empty())
    } else {
        lines_from(rest.drop_first(), cur.push(rest[0]))
    }
}

/// The lines of `text` as `str::lines` gives them: split at `\n`, a `\r`
/// before the `\n` dropped, and no empty line after a final `\n`.
pub open spec fn text_lines(text: Seq<char>) -> Seq<Seq<char>> {
    lines_from(text, Seq::empty())
}

/// `t` up to its first `(`, or all of it.
pub open spec fn before_paren(t: Seq<char>) -> Seq<char>
    decreases t.len(),
{
    if t.len() == 0 {
        t
    } else if t[0] == '(' {
        Seq::empty()
    } else {
        seq![t[0]] + before_paren(t.drop_first())
    }
}

/// The function name of an export line once `export function ` is taken
/// out: what stands before the first `(`; with no `(`, all but the last
/// character, which must then be ASCII.
pub open spec fn export_name(t: Seq<char>) -> Option<Seq<char>> {
    if t.contains('(') {
        Some(before_paren(t))
    } else if t.len() > 0 && is_ascii_char(t.last()) {
        Some(t.drop_last())
    } else {
        None
    }
}

/// `c` is an ASCII character.
pub open spec fn is_ascii_char(c: char) -> bool {
    (c as u32) < 128
}

/// Whether `c` is an ASCII character.
fn ascii_char(c: char) -> (r: bool)
    ensures
        r == is_ascii_char(c),
{
    (c as u32) < 128
}

/// What has been read of a glue file so far.
pub struct GlueParts {
    pub name: Seq<char>,
    pub path: Seq<char>,
    pub exports: Seq<Seq<char>>,
    /// The lines kept for the body.
    pub body_lines: Seq<Seq<char>>,
}

/// Nothing read yet.
pub open spec fn no_parts() -> GlueParts {
    GlueParts { name: Seq::empty(), path: Seq::empty(), exports: Seq::empty(), body_lines: Seq::empty() }
}

/// Reads one line: an import line sets the module's name and path (the
/// third word, without `;`) and is dropped; an export line adds its function
/// and is kept; any other line is kept.
pub open spec fn read_line(acc: GlueParts, line: Seq<char>) -> Result<GlueParts, GlueError> {
    if begins_with(line, "import * as"@) {
        let w = words(remove_all(line, "import * as "@));
        if w.len() == 0 {
            Err(GlueError::MissingName)
        } else if w.len() < 3 {
            Err(GlueError::MissingPath)
        } else {
            Ok(GlueParts { name: w[0], path: remove_all(w[2], ";"@), ..acc })
        }
    } else if begins_with(line, "export"@) {
        match export_name(remove_all(line, "export function "@)) {
            Some(e) => Ok(
                GlueParts { exports: acc.exports.push(e), body_lines: acc.body_lines.push(line), ..acc },
            ),
            None => Err(GlueError::BadExport),
        }
    } else {
        Ok(GlueParts { body_lines: acc.body_lines.push(line), ..acc })
    }
}

/// Reads `lines` in order; the first error stops the reading.
pub open spec fn read_lines(lines: Seq<Seq<char>>) -> Result<GlueParts, GlueError>
    decreases lines.len(),
{
    if lines.len() == 0 {
        Ok(no_parts())
    } else {
        match read_lines(lines.drop_last()) {
            Ok(acc) => read_line(acc, lines.last()),
            Err(e) => Err(e),
        }
    }
}

/// `lines` joined with `\n` between them.
pub open spec fn joined(lines: Seq<Seq<char>>) -> Seq<char>
    decreases lines.len(),
{
    if lines.len() == 0 {
        Seq::empty()
    } else if lines.len() == 1 {
        lines[0]
    } else {
        joined(lines.drop_last()) + seq!['\n'] + lines.last()
    }
}

/// `m` holds what was read.
pub open spec fn holds_parts(m: Module, p: GlueParts) -> bool {
    &&& m.name@ == p.name
    &&& m.path@ == p.path
    &&& texts(m.exports@) == p.exports
    &&& m.body@ == joined(p.body_lines)
}

/// Once reading has failed, more lines do not change the outcome.
proof fn lemma_error_stays(a: Seq<Seq<char>>, b: Seq<Seq<char>>)
    requires
        read_lines(a) is Err,
    ensures
        read_lines(a + b) == read_lines(a),
    decreases b.len(),
{
    if b.len() == 0 {
        assert(a + b =~= a);
    } else {
        lemma_error_stays(a, b.drop_last());
        assert((a + b).drop_last() =~= a + b.drop_last());
    }
}

/// The glue file's parts while it is read.
struct GlueState {
    name: Vec<char>,
    path: Vec<char>,
    exports: Vec<String>,
    body: Vec<char>,
    /// Some line has been kept.
    has_body: bool,
    body_lines: Ghost<Seq<Seq<char>>>,
}

impl GlueState {
    spec fn parts(&self) -> GlueParts {
        GlueParts {
            name: self.name@,
            path: self.path@,
            exports: texts(self.exports@),
            body_lines: self.body_lines@,
        }
    }

    spec fn wf(&self) -> bool {
        &&& self.body@ == joined(self.body_lines@)
        &&& self.has_body == (self.body_lines@.len() > 0)
    }

    /// Adds a line to the body.
    fn keep(&mut self, line: &Vec<char>)
        requires
            old(self).wf(),
        ensures
            final(self).wf(),
            final(self).parts() == (GlueParts {
                body_lines: old(self).parts().body_lines.push(line@),
                ..old(self).parts()
            }),
    {
        let ghost lines = self.body_lines@;
        if self.has_body {
            self.body.push('\n');
        }
        let mut k: usize = 0;
        let ghost start = self.body@;
        while k < line.len()
            invariant
                k <= line@.len(),
                self.body@ == start + line@.take(k as int),
                self.name == old(self).name,
                self.path == old(self).path,
                self.exports == old(self).exports,
                self.body_lines == old(self).body_lines,
                self.has_body == old(self).has_body,
            decreases line@.len() - k,
        {
            self.body.push(line[k]);
            assert(line@.take(k + 1) =~= line@.take(k as int).push(line@[k as int]));
            k = k + 1;
        }
        assert(line@.take(k as int) =~= line@);
        self.body_lines = Ghost(lines.push(line@));
        self.has_body = true;
        proof {
            let next = lines.push(line@);
            assert(next.drop_last() =~= lines);
            if lines.len() == 0 {
                assert(joined(next) == next[0]);
                assert(self.body@ =~= line@);
            } else {
                assert(self.body@ =~= joined(lines) + seq!['\n'] + line@);
            }
        }
    }

    /// Reads one line.
    fn take_line(&mut self, line: &Vec<char>) -> (r: Result<(), GlueError>)
        requires
            old(self).wf(),
        ensures
            final(self).wf(),
            match read_line(old(self).parts(), line@) {
                Ok(p) => r is Ok && final(self).parts() == p,
                Err(e) => r == Err::<(), GlueError>(e),
            },
    {
        let import_kw = chars_of("import * as");
        let export_kw = chars_of("export");
        if begins_at(line, 0, &import_kw) {
            assert(line@.skip(0) =~= line@);
            let rest = remove_all_of(line, &chars_of("import * as "));
            let w = split_words(&rest);
            assert(char_views(w@).len() == w@.len());
            if w.len() == 0 {
                return Err(GlueError::MissingName);
            }
            if w.len() < 3 {
                return Err(GlueError::MissingPath);
            }
            assert(char_views(w@)[0] == w@[0]@);
            assert(char_views(w@)[2] == w@[2]@);
            self.name = w[0].clone();
            self.path = remove_all_of(&w[2], &chars_of(";"));
            Ok(())
        } else if begins_at(line, 0, &export_kw) {
            assert(line@.skip(0) =~= line@);
            let trimmed = remove_all_of(line, &chars_of("export function "));
            match export_name_of(&trimmed) {
                Some(e) => {
                    let ghost before = self.exports@;
                    self.exports.push(text_of(&e));
                    assert(texts(self.exports@) =~= texts(before).push(e@));
                    self.keep(line);
                    Ok(())
                },
                None => Err(GlueError::BadExport),
            }
        } else {
            assert(line@.skip(0) =~= line@);
            self.keep(line);
            Ok(())
        }
    }
}

/// The function name of an export line, as `export_name` says.
fn export_name_of(t: &Vec<char>) -> (r: Option<Vec<char>>)
    ensures
        r is Some == export_name(t@) is Some,
        r is Some ==> r.unwrap()@ == export_name(t@).unwrap(),
{
    let mut out: Vec<char> = Vec::new();
    let mut i: usize = 0;
    assert(t@.skip(0) =~= t@);
    while i < t.len()
        invariant
            i <= t@.len(),
            out@ == t@.take(i as int),
            before_paren(t@) == out@ + before_paren(t@.skip(i as int)),
            forall|j: int| 0 <= j < i ==> t@[j] != '(',
        decreases t@.len() - i,
    {
        let ghost rest = t@.skip(i as int);
        assert(rest[0] == t@[i as int]);
        if t[i] == '(' {
            assert(t@.contains('('));
            assert(before_paren(rest) =~= Seq::<char>::empty());
            assert(out@ + Seq::<char>::empty() =~= out@);
            return Some(out);
        }
        assert(rest.drop_first() =~= t@.skip(i + 1));
        out.push(t[i]);
        assert(out@ =~= t@.take(i + 1));
        i = i + 1;
    }
    assert(!t@.contains('('));
    if t.len() > 0 && ascii_char(t[t.len() - 1]) {
        let mut v = out;
        v.pop();
        assert(t@.take(t@.len() as int) =~= t@);
        assert(v@ =~= t@.drop_last());
        Some(v)
    } else {
        None
    }
}

/// A line without its trailing `\r`.
fn strip_cr_of(line: Vec<char>) -> (r: Vec<char>)
    ensures
        r@ == strip_cr(line@),
{
    let mut l = line;
    if l.len() > 0 && l[l.len() - 1] == '\r' {
        l.pop();
    }
    l
}

impl Module {
    /// Reads the JavaScript glue that wasm-bindgen wrote: the import line
    /// gives the module's name and path and is dropped; the names of exported
    /// functions are collected; every other line is kept as the body.
    pub fn parse(text: &str) -> (r: Result<Module, GlueError>)
        ensures
            match read_lines(text_lines(text@)) {
                Ok(p) => r is Ok && holds_parts(r.unwrap(), p),
                Err(e) => r == Err::<Module, GlueError>(e),
            },
    {
        let chars = chars_of(text);
        let mut st = GlueState {
            name: Vec::new(),
            path: Vec::new(),
            exports: Vec::new(),
            body: Vec::new(),
            has_body: false,
            body_lines: Ghost(Seq::empty()),
        };
        assert(texts(st.exports@) =~= Seq::<Seq<char>>::empty());
        assert(st.name@ =~= Seq::<char>::empty());
        assert(st.path@ =~= Seq::<char>::empty());
        assert(st.parts() == no_parts());
        assert(st.body@ =~= joined(Seq::<Seq<char>>::empty()));
        let mut cur: Vec<char> = Vec::new();
        let ghost mut done: Seq<Seq<char>> = Seq::empty();
        let mut i: usize = 0;
        assert(chars@.skip(0) =~= chars@);
        assert(done + text_lines(text@) =~= text_lines(text@));
        while i < chars.len()
            invariant
                i <= chars@.len(),
                chars@ == text@,
                st.wf(),
                read_lines(done) == Ok::<GlueParts, GlueError>(st.parts()),
                text_lines(text@) == done + lines_from(chars@.skip(i as int), cur@),
            decreases chars@.len() - i,
        {
            let ghost rest = chars@.skip(i as int);
            assert(rest[0] == chars@[i as int]);
            assert(rest.drop_first() =~= chars@.skip(i + 1));
            if chars[i] == '\n' {
                let line = strip_cr_of(cur);
                let ghost next = done.push(line@);
                assert(next.drop_last() =~= done);
                assert(done + (seq![line@] + lines_from(rest.drop_first(), Seq::empty())) =~= next
                    + lines_from(rest.drop_first(), Seq::empty()));
                match st.take_line(&line) {
                    Ok(()) => {},
                    Err(e) => {
                        proof {
                            lemma_error_stays(next, lines_from(rest.drop_first(), Seq::empty()));
                        }
                        return Err(e);
                    },
                }
                proof {
                    done = next;
                }
                cur = Vec::new();
            } else {
                cur.push(chars[i]);
            }
            i = i + 1;
        }
        assert(chars@.skip(i as int) =~= Seq::<char>::empty());
        if cur.len() > 0 {
            let ghost next = done.push(cur@);
            assert(next.drop_last() =~= done);
            assert(text_lines(text@) =~= next);
            match st.take_line(&cur) {
                Ok(()) => {},
                Err(e) => {
                    return Err(e);
                },
            }
        } else {
            assert(text_lines(text@) =~= done);
        }
        let module = Module {
            name: text_of(&st.name),
            path: text_of(&st.path),
            exports: st.exports,
            body: text_of(&st.body),
        };
        Ok(module)
    }
}

} // verus!
