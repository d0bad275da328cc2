//! Builds a C launcher that runs a Douglang program through the douglang executable.
use vstd::prelude::*;

use crate::parser::ast::Stmt;
use crate::text::{
    contains_seq, contains_chars, ends_with, ends_with_chars, nat_decimal, push_chars, push_u64_decimal, replace_all,
    replaced, str_chars, string_from_chars,
};

verus! {

/// The C source of the launcher, with placeholders for the helper path, the program
/// text, the linked libraries and their number.
pub const LAUNCHER_TEMPLATE: &'static str = r#"/* Douglang launcher: runs the embedded program through the douglang executable. */
#include <stdio.h>
#include <stdlib.h>
#include <string.h>

#define DOUGLANG_HELPER_PATH __DOUGLANG_HELPER_PATH__
#define DOUGLANG_SOURCE __DOUGLANG_SOURCE__
#define DOUGLANG_LINK_COUNT __DOUGLANG_LINK_COUNT__

static const char *douglang_links[DOUGLANG_LINK_COUNT + 1] = { __DOUGLANG_LINKS__ };

int main(void) {
    char path[L_tmpnam];
    if (tmpnam(path) == NULL) {
        fprintf(stderr, "couldn't choose a file for the program\n");
        return 1;
    }
    FILE *file = fopen(path, "w");
    if (file == NULL) {
        fprintf(stderr, "couldn't write the program\n");
        return 1;
    }
    fputs(DOUGLANG_SOURCE, file);
    fclose(file);

    size_t len = strlen(DOUGLANG_HELPER_PATH) + strlen(path) + 64;
    for (int i = 0; i < DOUGLANG_LINK_COUNT; i++) {
        len += strlen(douglang_links[i]) + 16;
    }
    char *command = malloc(len);
    if (command == NULL) {
        remove(path);
        return 1;
    }
    snprintf(command, len, "\"%s\" --run-source-helper \"%s\"", DOUGLANG_HELPER_PATH, path);
    for (int i = 0; i < DOUGLANG_LINK_COUNT; i++) {
        strcat(command, " --link \"");
        strcat(command, douglang_links[i]);
        strcat(command, "\"");
    }
    int status = system(command);
    remove(path);
    free(command);
    return status == 0 ? 0 : 1;
}
"#;

/// A failure to build the launcher.
#[derive(Debug, Clone, PartialEq, Eq)]
pub struct CompileError {
    pub message: String,
}

impl CompileError {
    fn new(msg: &str) -> (e: Self)
        ensures
            e.message@ == msg@,
    {
        let a = str_chars(msg);
        CompileError { message: string_from_chars(a.as_slice()) }
    }
}

/// What the launcher is built from: where the douglang executable is, the program text
/// and the libraries to link.
pub struct Compiler {
    helper_path: Option<String>,
    source: String,
    linked_libs: Vec<String>,
}

/// The mathematical content of a [`Compiler`].
pub struct CompilerView {
    pub helper_path: Option<Seq<char>>,
    pub source: Seq<char>,
    pub linked_libs: Seq<Seq<char>>,
}

pub open spec fn strings_view(v: Seq<String>) -> Seq<Seq<char>> {
    v.map_values(|s: String| s@)
}

impl View for Compiler {
    type V = CompilerView;

    closed spec fn view(&self) -> CompilerView {
        CompilerView {
            helper_path: match self.helper_path {
                Some(h) => Some(h@),
                None => None,
            },
            source: self.source@,
            linked_libs: strings_view(self.linked_libs@),
        }
    }
}

/// How a character is written inside a C string literal.
pub open spec fn c_escape(c: char) -> Seq<char> {
    if c == '\\' {
        seq!['\\', '\\']
    } else if c == '"' {
        seq!['\\', '"']
    } else if c == '\n' {
        seq!['\\', 'n']
    } else if c == '\t' {
        seq!['\\', 't']
    } else if c == '\r' {
        seq!['\\', 'r']
    } else if c == '\0' {
        seq!['\\', '0']
    } else {
        seq![c]
    }
}

pub open spec fn c_escaped(s: Seq<char>) -> Seq<char>
    decreases s.len(),
{
    if s.len() == 0 {
        seq![]
    } else {
        c_escape(s[0]) + c_escaped(s.skip(1))
    }
}

/// A C string literal holding `s`.
pub open spec fn c_string_literal(s: Seq<char>) -> Seq<char> {
    seq!['"'] + c_escaped(s) + seq!['"']
}

/// The C string literals of `libs`, separated by `", "`.
pub open spec fn joined_literals(libs: Seq<Seq<char>>) -> Seq<char>
    decreases libs.len(),
{
    if libs.len() == 0 {
        seq![]
    } else if libs.len() == 1 {
        c_string_literal(libs[0])
    } else {
        c_string_literal(libs[0]) + ", "@ + joined_literals(libs.skip(1))
    }
}

/// The launcher for the given helper path, program text and libraries.
pub open spec fn launcher_source(helper: Seq<char>, source: Seq<char>, libs: Seq<Seq<char>>) -> Seq<
    char,
> {
    replaced(
        replaced(
            replaced(
                replaced(
                    LAUNCHER_TEMPLATE@,
                    "__DOUGLANG_HELPER_PATH__"@,
                    c_string_literal(helper),
                ),
                "__DOUGLANG_SOURCE__"@,
                c_string_literal(source),
            ),
            "__DOUGLANG_LINKS__"@,
            joined_literals(libs),
        ),
        "__DOUGLANG_LINK_COUNT__"@,
        nat_decimal(libs.len()),
    )
}

proof fn lemma_c_escaped_skip(s: Seq<char>, i: int)
    requires
        0 <= i < s.len(),
    ensures
        c_escaped(s.skip(i)) == c_escape(s[i]) + c_escaped(s.skip(i + 1)),
{
    assert(s.skip(i).skip(1) =~= s.skip(i + 1));
}

/// The character a C escape `\\x` stands for.
pub open spec fn c_escape_meaning(x: char) -> char {
    if x == 'n' {
        '\n'
    } else if x == 't' {
        '\t'
    } else if x == 'r' {
        '\r'
    } else if x == '0' {
        '\0'
    } else {
        x
    }
}

/// What the body of a C string literal reads as: each backslash and the character after
/// it stand for one character, every other character for itself.
pub open spec fn c_unescaped(body: Seq<char>) -> Seq<char>
    decreases body.len(),
{
    if body.len() == 0 {
        seq![]
    } else if body[0] == '\\' && body.len() >= 2 {
        seq![c_escape_meaning(body[1])] + c_unescaped(body.skip(2))
    } else {
        seq![body[0]] + c_unescaped(body.skip(1))
    }
}

proof fn lemma_c_escaped_reads_back(s: Seq<char>)
    ensures
        c_unescaped(c_escaped(s)) == s,
        forall|i: int| 0 <= i < c_escaped(s).len() ==> #[trigger] c_escaped(s)[i] != '\n',
        forall|i: int|
            0 <= i < c_escaped(s).len() && #[trigger] c_escaped(s)[i] == '"' ==> i > 0 && c_escaped(s)[i - 1] == '\\',
    decreases s.len(),
{
    if s.len() > 0 {
        lemma_c_escaped_reads_back(s.skip(1));
        let e = c_escape(s[0]);
        let rest = c_escaped(s.skip(1));
        let all = e + rest;
        assert(c_escaped(s) == all);
        if e.len() == 2 {
            assert(all.skip(2) =~= rest);
        } else {
            assert(all.skip(1) =~= rest);
        }
        assert(seq![s[0]] + s.skip(1) =~= s);
        assert forall|i: int| 0 <= i < all.len() implies #[trigger] all[i] != '\n' by {
            if i >= e.len() {
                assert(all[i] == rest[i - e.len()]);
            }
        }
        assert forall|i: int| 0 <= i < all.len() && #[trigger] all[i] == '"' implies i > 0 && all[i - 1] == '\\' by {
            if i >= e.len() {
                assert(all[i] == rest[i - e.len()]);
                if i - e.len() > 0 {
                    assert(all[i - 1] == rest[i - 1 - e.len()]);
                }
            }
        }
    }
}

/// The C string literal written for a text is one: it opens and closes with a double
/// quote, holds no raw newline, every double quote inside it follows a backslash, and
/// reading its escapes back gives the text.
pub proof fn lemma_c_string_literal_reads_back(s: Seq<char>)
    ensures
        ({
            let lit = c_string_literal(s);
            let body = lit.subrange(1, lit.len() - 1);
            &&& lit.len() >= 2
            &&& lit[0] == '"'
            &&& lit[lit.len() - 1] == '"'
            &&& forall|i: int| 0 <= i < lit.len() ==> #[trigger] lit[i] != '\n'
            &&& forall|i: int| 0 <= i < body.len() && #[trigger] body[i] == '"' ==> i > 0 && body[i - 1] == '\\'
            &&& c_unescaped(body) == s
        }),
{
    lemma_c_escaped_reads_back(s);
    let lit = c_string_literal(s);
    let e = c_escaped(s);
    assert(lit.subrange(1, lit.len() - 1) =~= e);
    assert forall|i: int| 0 <= i < lit.len() implies #[trigger] lit[i] != '\n' by {
        if 0 < i < lit.len() - 1 {
            assert(lit[i] == e[i - 1]);
        }
    }
}

impl Compiler {
    pub fn new(helper_path: Option<String>, source: String, linked_libs: Vec<String>) -> (c: Self)
        ensures
            c@.helper_path == (match helper_path {
                Some(h) => Some(h@),
                None => None,
            }),
            c@.source == source@,
            c@.linked_libs == strings_view(linked_libs@),
    {
        Compiler { helper_path, source, linked_libs }
    }

    /// Writes `s` as a C string literal.
    fn cstring_literal(s: &str) -> (out: Vec<char>)
        ensures
            out@ == c_string_literal(s@),
    {
        let chars = str_chars(s);
        let ghost t = chars@;
        let mut out: Vec<char> = Vec::new();
        out.push('"');
        let mut i: usize = 0;
        assert(t.skip(0) =~= t);
        while i < chars.len()
            invariant
                t == chars@,
                i <= t.len(),
                out@ + c_escaped(t.skip(i as int)) + seq!['"'] == c_string_literal(t),
            decreases t.len() - i,
        {
            let c = chars[i];
            proof {
                lemma_c_escaped_skip(t, i as int);
            }
            let ghost before = out@;
            if c == '\\' {
                out.push('\\');
                out.push('\\');
            } else if c == '"' {
                out.push('\\');
                out.push('"');
            } else if c == '\n' {
                out.push('\\');
                out.push('n');
            } else if c == '\t' {
                out.push('\\');
                out.push('t');
            } else if c == '\r' {
                out.push('\\');
                out.push('r');
            } else if c == '\0' {
                out.push('\\');
                out.push('0');
            } else {
                out.push(c);
            }
            assert(out@ =~= before + c_escape(c));
            assert(out@ + c_escaped(t.skip(i + 1)) + seq!['"'] =~= c_string_literal(t));
            i = i + 1;
        }
        assert(t.skip(i as int) =~= Seq::<char>::empty());
        out.push('"');
        assert(out@ =~= c_string_literal(t));
        out
    }

    /// Builds the launcher's C source. The statements and the library list given here
    /// are not read: the launcher runs the program text that the compiler was made with,
    /// linking the libraries it was made with. Fails where no helper path is known.
    pub fn compile(&mut self, _nodes: &[Stmt], _linked_libs: &[String]) -> (r: Result<String, CompileError>)
        ensures
            final(self)@ == old(self)@,
            match old(self)@.helper_path {
                None => r matches Err(e)
                    && e.message@ == "compiled launcher generation needs the douglang executable path"@,
                Some(h) => r matches Ok(s) && s@ == launcher_source(
                    h,
                    old(self)@.source,
                    old(self)@.linked_libs,
                ),
            },
    {
        let helper_path = match &self.helper_path {
            None => {
                return Err(
                    CompileError::new("compiled launcher generation needs the douglang executable path"),
                );
            },
            Some(h) => h,
        };
        let mut links: Vec<char> = Vec::new();
        let n = self.linked_libs.len();
        let ghost libs = strings_view(self.linked_libs@);
        let mut k: usize = 0;
        while k < n
            invariant
                n == self.linked_libs@.len(),
                libs == strings_view(self.linked_libs@),
                k <= n,
                links@ + (if k == 0 { joined_literals(libs) } else if k < n { ", "@ + joined_literals(
                    libs.skip(k as int),
                ) } else { seq![] }) == joined_literals(libs),
            decreases n - k,
        {
            if k > 0 {
                let sep = str_chars(", ");
                push_chars(&mut links, sep.as_slice());
            }
            let lit = Self::cstring_literal(self.linked_libs[k].as_str());
            push_chars(&mut links, lit.as_slice());
            proof {
                let rest = libs.skip(k as int);
                assert(rest[0] == libs[k as int]);
                assert(rest.skip(1) =~= libs.skip(k + 1));
                if k == 0 {
                    assert(libs.skip(0) =~= libs);
                }
            }
            k = k + 1;
        }
        let template = str_chars(LAUNCHER_TEMPLATE);
        let p1 = str_chars("__DOUGLANG_HELPER_PATH__");
        let p2 = str_chars("__DOUGLANG_SOURCE__");
        let p3 = str_chars("__DOUGLANG_LINKS__");
        let p4 = str_chars("__DOUGLANG_LINK_COUNT__");
        proof {
            reveal_strlit("__DOUGLANG_HELPER_PATH__");
            reveal_strlit("__DOUGLANG_SOURCE__");
            reveal_strlit("__DOUGLANG_LINKS__");
            reveal_strlit("__DOUGLANG_LINK_COUNT__");
        }
        let helper_lit = Self::cstring_literal(helper_path.as_str());
        let source_lit = Self::cstring_literal(self.source.as_str());
        let mut count: Vec<char> = Vec::new();
        push_u64_decimal(&mut count, n as u64);
        let s1 = replace_all(template.as_slice(), p1.as_slice(), helper_lit.as_slice());
        let s2 = replace_all(s1.as_slice(), p2.as_slice(), source_lit.as_slice());
        let s3 = replace_all(s2.as_slice(), p3.as_slice(), links.as_slice());
        let s4 = replace_all(s3.as_slice(), p4.as_slice(), count.as_slice());
        Ok(string_from_chars(s4.as_slice()))
    }
}

/// Whether a library named on the command line is a file to link as it is, rather
/// than a library for the linker to look up by name.
pub open spec fn is_library_path(lib: Seq<char>) -> bool {
    ||| contains_seq(lib, seq!['/'])
    ||| contains_seq(lib, seq!['\\'])
    ||| ends_with(lib, ".dll"@)
    ||| ends_with(lib, ".so"@)
    ||| ends_with(lib, ".a"@)
    ||| ends_with(lib, ".dylib"@)
}

/// The linker arguments for the libraries `libs`, from the `i`-th on: a C source is
/// left out, a file is passed as it is, and any other name is passed after `-l`.
pub open spec fn link_args_from(libs: Seq<Seq<char>>, i: int) -> Seq<Seq<char>>
    decreases libs.len() - i,
{
    if i >= libs.len() || i < 0 {
        Seq::empty()
    } else {
        let lib = libs[i];
        let here: Seq<Seq<char>> = if ends_with(lib, ".c"@) {
            Seq::empty()
        } else if is_library_path(lib) {
            seq![lib]
        } else {
            seq!["-l"@ + lib]
        };
        here + link_args_from(libs, i + 1)
    }
}

/// The arguments for the C compiler to build `binary_name` from `c_path` and link the
/// libraries `libs`.
pub open spec fn gcc_args_of(binary_name: Seq<char>, c_path: Seq<char>, libs: Seq<Seq<char>>) -> Seq<Seq<char>> {
    seq!["-o"@, binary_name, c_path] + link_args_from(libs, 0)
}

fn chars_of(s: &str) -> (r: Vec<char>)
    ensures
        r@ == s@,
{
    str_chars(s)
}

/// Whether `lib` names a file to link as it is.
fn library_path(lib: &[char]) -> (r: bool)
    ensures
        r == is_library_path(lib@),
{
    let slash = ['/'];
    let backslash = ['\\'];
    assert(slash@ =~= seq!['/']);
    assert(backslash@ =~= seq!['\\']);
    contains_chars(lib, &slash) || contains_chars(lib, &backslash) || ends_with_chars(lib, chars_of(".dll").as_slice())
        || ends_with_chars(lib, chars_of(".so").as_slice()) || ends_with_chars(lib, chars_of(".a").as_slice())
        || ends_with_chars(lib, chars_of(".dylib").as_slice())
}

/// The arguments for the C compiler to build `binary_name` from `c_path` and link the
/// libraries `libs`, before any flags that pkg-config adds.
pub fn gcc_args(binary_name: &str, c_path: &str, libs: &[String]) -> (r: Vec<String>)
    ensures
        r@.map_values(|a: String| a@) == gcc_args_of(binary_name@, c_path@, libs@.map_values(|l: String| l@)),
{
    let ghost lv = libs@.map_values(|l: String| l@);
    let mut out: Vec<String> = Vec::new();
    let o = chars_of("-o");
    out.push(string_from_chars(o.as_slice()));
    out.push(string_from_chars(chars_of(binary_name).as_slice()));
    out.push(string_from_chars(chars_of(c_path).as_slice()));
    let ghost head = seq!["-o"@, binary_name@, c_path@];
    assert(out@.map_values(|a: String| a@) =~= head);
    let mut i: usize = 0;
    while i < libs.len()
        invariant
            i <= libs@.len(),
            lv == libs@.map_values(|l: String| l@),
            out@.map_values(|a: String| a@) + link_args_from(lv, i as int) == gcc_args_of(binary_name@, c_path@, lv),
        decreases libs@.len() - i,
    {
        let lib = chars_of(libs[i].as_str());
        let ghost before = out@.map_values(|a: String| a@);
        let ghost rest = link_args_from(lv, i + 1);
        if ends_with_chars(lib.as_slice(), chars_of(".c").as_slice()) {
            assert(link_args_from(lv, i as int) =~= rest);
        } else if library_path(lib.as_slice()) {
            out.push(string_from_chars(lib.as_slice()));
            assert(out@.map_values(|a: String| a@) =~= before.push(lv[i as int]));
            assert(before.push(lv[i as int]) + rest =~= before + link_args_from(lv, i as int));
        } else {
            let mut arg = chars_of("-l");
            push_chars(&mut arg, lib.as_slice());
            out.push(string_from_chars(arg.as_slice()));
            assert(out@.map_values(|a: String| a@) =~= before.push("-l"@ + lv[i as int]));
            assert(before.push("-l"@ + lv[i as int]) + rest =~= before + link_args_from(lv, i as int));
        }
        i = i + 1;
    }
    assert(link_args_from(lv, libs@.len() as int) =~= Seq::<Seq<char>>::empty());
    assert(out@.map_values(|a: String| a@) + Seq::<Seq<char>>::empty() =~= out@.map_values(|a: String| a@));
    out
}

} // verus!
