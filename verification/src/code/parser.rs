//! Parsing fenced code blocks and their directive comments.

use vstd::prelude::*;
use crate::strutil::{append_chars, chars_string, contains_chars, eq_chars, lines_chars,
    parse_usize_chars, spec_contains, spec_starts_with, spec_trim, split_chars,
    starts_with_chars, str_chars, subrange_chars, trim_chars, usize_to_chars};

verus! {

/// The `md-code` directive on a code block.
#[derive(Debug, Clone, PartialEq)]
pub struct CodeBlockDirective {
    pub id: String,
    pub execute: bool,
    pub bin: Option<String>,
    pub timeout: Option<u64>,
}

/// One fenced code block and the directive that follows it, if any.
#[derive(Debug, PartialEq)]
pub struct CodeBlock {
    pub start_line: usize,
    pub end_line: usize,
    pub language: String,
    pub content: String,
    pub directive: Option<CodeBlockDirective>,
}

impl CodeBlock {
    /// The directive's id, when the block carries one.
    pub fn directive_id_if_execute(&self) -> (r: Option<String>)
    {
        match &self.directive {
            Some(d) => Some(d.id.clone()),
            None => None,
        }
    }
}

/// One existing output block, keyed by the id its directive names.
#[derive(Debug, PartialEq)]
pub struct OutputBlock {
    pub start_line: usize,
    pub end_line: usize,
    pub id: String,
    pub content: String,
}

/// A line opening or closing a backtick fence.
pub fn is_code_fence(line: &str) -> (r: bool)
    ensures
        r == spec_starts_with(spec_trim(line@), seq!['`', '`', '`']),
{
    let raw = str_chars(line);
    let t = trim_chars(&raw);
    let bt = vec!['`', '`', '`'];
    proof {
        assert(bt@ =~= seq!['`', '`', '`']);
    }
    starts_with_chars(&t, &bt)
}

/// The language tag after the opening fence, trimmed.
pub fn extract_language(fence_line: &str) -> (r: String)
    ensures
        spec_starts_with(spec_trim(fence_line@), seq!['`', '`', '`']) ==> r@ == spec_trim(
            spec_trim(fence_line@).skip(3),
        ),
        !spec_starts_with(spec_trim(fence_line@), seq!['`', '`', '`']) ==> r@
            == Seq::<char>::empty(),
{
    let raw = str_chars(fence_line);
    let t = trim_chars(&raw);
    let bt = vec!['`', '`', '`'];
    proof {
        assert(bt@ =~= seq!['`', '`', '`']);
    }
    if starts_with_chars(&t, &bt) {
        let rest = subrange_chars(&t, 3, t.len());
        proof {
            assert(rest@ =~= t@.skip(3));
        }
        let lang = trim_chars(&rest);
        chars_string(&lang)
    } else {
        let empty: Vec<char> = Vec::new();
        proof {
            assert(empty@ =~= Seq::<char>::empty());
        }
        chars_string(&empty)
    }
}

/// An HTML comment naming the `md-code` directive.
pub fn is_md_code_comment(line: &str) -> (r: bool)
    ensures
        r == ({
            let t = spec_trim(line@);
            spec_starts_with(t, "<!--"@) && spec_contains(t, "md-code:"@)
        }),
{
    let raw = str_chars(line);
    let t = trim_chars(&raw);
    let open_mark = str_chars("<!--");
    let key = str_chars("md-code:");
    starts_with_chars(&t, &open_mark) && contains_chars(&t, &key)
}

/// An HTML comment naming the `md-code-output` directive.
pub fn is_md_code_output_comment(line: &str) -> (r: bool)
    ensures
        r == ({
            let t = spec_trim(line@);
            spec_starts_with(t, "<!--"@) && spec_contains(t, "md-code-output:"@)
        }),
{
    let raw = str_chars(line);
    let t = trim_chars(&raw);
    let open_mark = str_chars("<!--");
    let key = str_chars("md-code-output:");
    starts_with_chars(&t, &open_mark) && contains_chars(&t, &key)
}

/// Strips the surrounding double quotes from a value.
pub fn extract_quoted_value(s: &str) -> (r: Result<String, String>)
    ensures
        ({
            let v = s@;
            (v.len() >= 2 && v[0] == '"' && v.last() == '"') <==> r is Ok
        }),
        r is Ok ==> r->Ok_0@ == s@.subrange(1, s@.len() - 1),
{
    let v = str_chars(s);
    if v.len() >= 2 && v[0] == '"' && v[v.len() - 1] == '"' {
        proof {
            assert(v@.last() == v@[v@.len() - 1]);
        }
        let inner = subrange_chars(&v, 1, v.len() - 1);
        Ok(chars_string(&inner))
    } else {
        proof {
            if v@.len() >= 2 && v@[0] == '"' && v@.last() == '"' {
                assert(v@[v@.len() - 1] == v@.last());
            }
        }
        let mut msg = str_chars("Value must be quoted: ");
        append_chars(&mut msg, &v);
        Err(chars_string(&msg))
    }
}

/// Parses `<!-- md-code: id="x"; execute; bin="y"; timeout=N -->`.
pub fn parse_md_code_directive(line: &str) -> (r: Result<CodeBlockDirective, String>)
{
    let raw = str_chars(line);
    let trimmed = trim_chars(&raw);
    let open_mark = vec!['<', '!', '-', '-'];
    let close_mark = vec!['-', '-', '>'];
    proof {
        assert(open_mark@.len() == 4);
        assert(close_mark@.len() == 3);
    }
    if !starts_with_chars(&trimmed, &open_mark) {
        return Err(chars_string(&str_chars("Missing opening <!--")));
    }
    let step1 = subrange_chars(&trimmed, 4, trimmed.len());
    if !crate::strutil::ends_with_chars(&step1, &close_mark) {
        return Err(chars_string(&str_chars("Missing closing -->")));
    }
    let step2 = subrange_chars(&step1, 0, step1.len() - 3);
    let content0 = trim_chars(&step2);
    let prefix = vec!['m', 'd', '-', 'c', 'o', 'd', 'e', ':'];
    proof {
        assert(prefix@.len() == 8);
    }
    if !starts_with_chars(&content0, &prefix) {
        return Err(chars_string(&str_chars("Missing md-code: prefix")));
    }
    let content1 = subrange_chars(&content0, 8, content0.len());
    let content = trim_chars(&content1);
    let mut id: Option<String> = None;
    let mut execute = false;
    let mut bin: Option<String> = None;
    let mut timeout: Option<u64> = None;
    let parts = split_chars(&content, ';');
    let kw_execute = str_chars("execute");
    let idkey = vec!['i', 'd', '='];
    let binkey = vec!['b', 'i', 'n', '='];
    let tokey = vec!['t', 'i', 'm', 'e', 'o', 'u', 't', '='];
    let mut i: usize = 0;
    while i < parts.len()
        invariant
            idkey@.len() == 3,
            binkey@.len() == 4,
            tokey@.len() == 8,
        decreases parts@.len() - i,
    {
        let part = trim_chars(&parts[i]);
        if eq_chars(&part, &kw_execute) {
            execute = true;
        } else if starts_with_chars(&part, &idkey) {
            let value0 = subrange_chars(&part, 3, part.len());
            let value = trim_chars(&value0);
            match extract_quoted_value(chars_string(&value).as_str()) {
                Ok(v) => {
                    id = Some(v);
                },
                Err(e) => {
                    return Err(e);
                },
            }
        } else if starts_with_chars(&part, &binkey) {
            let value0 = subrange_chars(&part, 4, part.len());
            let value = trim_chars(&value0);
            match extract_quoted_value(chars_string(&value).as_str()) {
                Ok(v) => {
                    bin = Some(v);
                },
                Err(e) => {
                    return Err(e);
                },
            }
        } else if starts_with_chars(&part, &tokey) {
            let value0 = subrange_chars(&part, 8, part.len());
            let value = trim_chars(&value0);
            match parse_usize_chars(&value) {
                Some(n) => {
                    timeout = Some(n as u64);
                },
                None => {
                    let mut msg = str_chars("Invalid timeout value: ");
                    append_chars(&mut msg, &value);
                    return Err(chars_string(&msg));
                },
            }
        }
        i = i + 1;
    }
    match id {
        Some(idv) => Ok(CodeBlockDirective { id: idv, execute, bin, timeout }),
        None => Err(chars_string(&str_chars("Missing required id attribute"))),
    }
}

/// Parses `<!-- md-code-output: id="x" -->` and yields the id.
pub fn parse_md_code_output_directive(line: &str) -> (r: Result<String, String>)
{
    let raw = str_chars(line);
    let trimmed = trim_chars(&raw);
    let open_mark = vec!['<', '!', '-', '-'];
    let close_mark = vec!['-', '-', '>'];
    proof {
        assert(open_mark@.len() == 4);
        assert(close_mark@.len() == 3);
    }
    if !starts_with_chars(&trimmed, &open_mark) {
        return Err(chars_string(&str_chars("Missing opening <!--")));
    }
    let step1 = subrange_chars(&trimmed, 4, trimmed.len());
    if !crate::strutil::ends_with_chars(&step1, &close_mark) {
        return Err(chars_string(&str_chars("Missing closing -->")));
    }
    let step2 = subrange_chars(&step1, 0, step1.len() - 3);
    let content0 = trim_chars(&step2);
    let prefix = vec!['m', 'd', '-', 'c', 'o', 'd', 'e', '-', 'o', 'u', 't', 'p', 'u', 't', ':'];
    proof {
        assert(prefix@.len() == 15);
    }
    if !starts_with_chars(&content0, &prefix) {
        return Err(chars_string(&str_chars("Missing md-code-output: prefix")));
    }
    let content1 = subrange_chars(&content0, 15, content0.len());
    let content = trim_chars(&content1);
    let idkey = vec!['i', 'd', '='];
    proof {
        assert(idkey@.len() == 3);
    }
    if starts_with_chars(&content, &idkey) {
        let value0 = subrange_chars(&content, 3, content.len());
        let value = trim_chars(&value0);
        extract_quoted_value(chars_string(&value).as_str())
    } else {
        Err(chars_string(&str_chars("Missing id attribute in md-code-output")))
    }
}

fn output_ids_contain(blocks: &Vec<(String, OutputBlock)>, id: &Vec<char>) -> (r: bool)
{
    let mut i: usize = 0;
    while i < blocks.len()
        decreases blocks@.len() - i,
    {
        let kv = str_chars(blocks[i].0.as_str());
        if eq_chars(&kv, id) {
            return true;
        }
        i = i + 1;
    }
    false
}

/// Finds every fenced code block with its directive, and every output
/// block; a repeated output id or an unclosed fence is an error.
pub fn parse_document(text: &str) -> (r: Result<
    (Vec<CodeBlock>, Vec<(String, OutputBlock)>),
    String,
>)
{
    let raw = str_chars(text);
    let line_vecs = lines_chars(&raw);
    let mut line_texts: Vec<String> = Vec::new();
    let mut li: usize = 0;
    while li < line_vecs.len()
        decreases line_vecs@.len() - li,
    {
        line_texts.push(chars_string(&line_vecs[li]));
        li = li + 1;
    }
    let n = line_texts.len();
    let mut code_blocks: Vec<CodeBlock> = Vec::new();
    let mut output_blocks: Vec<(String, OutputBlock)> = Vec::new();
    let mut i: usize = 0;
    while i < n
        invariant
            n == line_texts@.len(),
        decreases n - i,
    {
        if is_code_fence(line_texts[i].as_str()) {
            let start_line = i;
            let language = extract_language(line_texts[i].as_str());
            i = i + 1;
            let mut content_lines: Vec<Vec<char>> = Vec::new();
            let ghost i5 = i as int;
            while i < n && !is_code_fence(line_texts[i].as_str())
                invariant
                    n == line_texts@.len(),
                    i5 <= i <= n,
                decreases n - i,
            {
                content_lines.push(str_chars(line_texts[i].as_str()));
                i = i + 1;
            }
            if i >= n {
                let mut msg = str_chars("Unclosed code block starting at line ");
                let ln = usize_to_chars(start_line + 1);
                append_chars(&mut msg, &ln);
                return Err(chars_string(&msg));
            }
            let end_line = i;
            let nl = vec!['\n'];
            let content_chars = crate::strutil::join_chars(&content_lines, &nl);
            let content = chars_string(&content_chars);
            i = i + 1;
            let mut directive: Option<CodeBlockDirective> = None;
            if i < n && is_md_code_comment(line_texts[i].as_str()) {
                match parse_md_code_directive(line_texts[i].as_str()) {
                    Ok(d) => {
                        directive = Some(d);
                    },
                    Err(e) => {
                        return Err(e);
                    },
                }
            } else if i < n && is_md_code_output_comment(line_texts[i].as_str()) {
                match parse_md_code_output_directive(line_texts[i].as_str()) {
                    Ok(id) => {
                        let idv = str_chars(id.as_str());
                        if output_ids_contain(&output_blocks, &idv) {
                            let mut msg = str_chars("Duplicate output block id: ");
                            append_chars(&mut msg, &idv);
                            return Err(chars_string(&msg));
                        }
                        let key = chars_string(&idv);
                        output_blocks.push(
                            (
                                key,
                                OutputBlock {
                                    start_line,
                                    end_line,
                                    id,
                                    content: chars_string(&str_chars(content.as_str())),
                                },
                            ),
                        );
                    },
                    Err(e) => {
                        return Err(e);
                    },
                }
            }
            if directive.is_some() {
                code_blocks.push(
                    CodeBlock { start_line, end_line, language, content, directive },
                );
            }
        } else {
            i = i + 1;
        }
    }
    Ok((code_blocks, output_blocks))
}

/// Rejects batches where two code blocks claim the same id.
pub fn validate_unique_ids(code_blocks: &Vec<CodeBlock>) -> (r: Result<(), String>)
{
    let mut seen: Vec<(String, usize)> = Vec::new();
    let mut i: usize = 0;
    while i < code_blocks.len()
        decreases code_blocks@.len() - i,
    {
        match &code_blocks[i].directive {
            Some(d) => {
                let idv = str_chars(d.id.as_str());
                let mut j: usize = 0;
                let mut prev: Option<usize> = None;
                while j < seen.len()
                    invariant
                        prev matches Some(p) ==> p < seen@.len(),
                    decreases seen@.len() - j,
                {
                    let kv = str_chars(seen[j].0.as_str());
                    if eq_chars(&kv, &idv) {
                        prev = Some(j);
                        j = seen.len();
                    } else {
                        j = j + 1;
                    }
                }
                match prev {
                    Some(p) => {
                        let prev_line = seen[p].1;
                        let mut msg = str_chars("Duplicate code block id '");
                        append_chars(&mut msg, &idv);
                        let mid = str_chars("' found at lines ");
                        append_chars(&mut msg, &mid);
                        let a = usize_to_chars(
                            if prev_line < usize::MAX {
                                prev_line + 1
                            } else {
                                prev_line
                            },
                        );
                        append_chars(&mut msg, &a);
                        let mid2 = str_chars(" and ");
                        append_chars(&mut msg, &mid2);
                        let b = usize_to_chars(
                            if code_blocks[i].start_line < usize::MAX {
                                code_blocks[i].start_line + 1
                            } else {
                                code_blocks[i].start_line
                            },
                        );
                        append_chars(&mut msg, &b);
                        return Err(chars_string(&msg));
                    },
                    None => {
                        seen.push((chars_string(&idv), code_blocks[i].start_line));
                    },
                }
            },
            None => {},
        }
        i = i + 1;
    }
    Ok(())
}

} // verus!
