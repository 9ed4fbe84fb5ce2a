//! Prompt assembly from a system prompt, included files and the user's
//! prompt, and the checks that inputs pass before they are sent.
use vstd::prelude::*;
use crate::text::{
    any_binary_char, byte_len, chars_of, decimal, has_binary_char, has_char, push_str,
    push_string, str_len, trim, trim_bounds, u64_to_string,
};

verus! {

/// Input processor for handling file inclusion and prompt building.
pub struct InputProcessor;

/// The opening of a prompt with a system prompt.
pub open spec fn system_part(system: Option<Seq<char>>) -> Seq<char> {
    match system {
        Some(s) => "System: "@ + s + "\n\n"@,
        None => Seq::empty(),
    }
}

/// The block that includes one file: its path, then its content fenced.
pub open spec fn file_part(path: Seq<char>, content: Seq<char>) -> Seq<char> {
    "File: "@ + path + "\n"@ + "```\n"@ + content + "\n```\n\n"@
}

/// The blocks of the first `n` files, in order.
pub open spec fn files_part(files: Seq<(String, String)>, n: int) -> Seq<char>
    decreases n,
{
    if n <= 0 || n > files.len() {
        Seq::empty()
    } else {
        files_part(files, n - 1) + file_part(files[n - 1].0@, files[n - 1].1@)
    }
}

/// The whole prompt: system prompt, file blocks in the order given, then
/// the user's prompt.
pub open spec fn spec_build_prompt(
    base: Seq<char>,
    files: Seq<(String, String)>,
    system: Option<Seq<char>>,
) -> Seq<char> {
    system_part(system) + files_part(files, files.len() as int) + base
}

pub open spec fn too_large_file_text(path: Seq<char>, size: u64) -> Seq<char> {
    "File '"@ + path + "' is too large ("@ + decimal(size as nat)
        + " bytes). Maximum file size is 10MB."@
}

pub open spec fn large_file_text(path: Seq<char>, size: u64) -> Seq<char> {
    "Warning: File '"@ + path + "' is large ("@ + decimal(size as nat)
        + " bytes). This may impact performance."@
}

pub open spec fn binary_file_text(path: Seq<char>) -> Seq<char> {
    "File '"@ + path + "' appears to be binary. Please provide text files only."@
}

pub open spec fn invalid_file_text(path: Seq<char>) -> Seq<char> {
    "File '"@ + path + "' contains invalid UTF-8 sequences"@
}

/// Files above this many bytes are refused.
pub const MAX_FILE_BYTES: u64 = 10_485_760;

/// Files above this many bytes draw a warning.
pub const LARGE_FILE_BYTES: u64 = 1_048_576;

/// Prompts above this many bytes are refused.
pub const MAX_PROMPT_BYTES: usize = 1_000_000;

/// Prompts above this many bytes draw a warning.
pub const LARGE_PROMPT_BYTES: usize = 100_000;

/// Token limits above this draw a warning.
pub const LARGE_MAX_TOKENS: u32 = 100_000;

pub open spec fn empty_prompt_text() -> Seq<char> {
    "Prompt cannot be empty or contain only whitespace"@
}

pub open spec fn binary_prompt_text() -> Seq<char> {
    "Prompt contains binary or control characters. Please provide text content only."@
}

pub open spec fn invalid_prompt_text() -> Seq<char> {
    "Prompt contains invalid UTF-8 sequences"@
}

pub open spec fn too_large_prompt_text(n: nat) -> Seq<char> {
    "Prompt is too large ("@ + decimal(n) + " characters). Maximum prompt size is 1MB."@
}

pub open spec fn large_prompt_text(n: nat) -> Seq<char> {
    "Warning: Prompt is very large ("@ + decimal(n) + " characters). This may impact performance."@
}

/// The verdict on a prompt: empty (after trimming), binary, holding
/// replacement characters, too large, in that order; else accepted.
pub open spec fn spec_validate_prompt(p: Seq<char>) -> Result<(), Seq<char>> {
    if trim(p).len() == 0 {
        Err(empty_prompt_text())
    } else if has_binary_char(p) {
        Err(binary_prompt_text())
    } else if p.contains('\u{FFFD}') {
        Err(invalid_prompt_text())
    } else if byte_len(p) > MAX_PROMPT_BYTES {
        Err(too_large_prompt_text(byte_len(p)))
    } else {
        Ok(())
    }
}

pub open spec fn zero_max_tokens_text() -> Seq<char> {
    "Max tokens must be greater than 0, got: 0"@
}

pub open spec fn large_max_tokens_text(n: u32) -> Seq<char> {
    "Warning: Max tokens is very large ("@ + decimal(n as nat) + ")"@
}

/// Appends the block of one file.
fn push_file_part(out: &mut String, path: &String, content: &String)
    ensures
        final(out)@ == old(out)@ + file_part(path@, content@),
{
    push_str(out, "File: ");
    push_string(out, path);
    push_str(out, "\n");
    push_str(out, "```\n");
    push_string(out, content);
    push_str(out, "\n```\n\n");
    assert(out@ =~= old(out)@ + file_part(path@, content@));
}

/// `"File '" + path + middle`.
fn file_message(path: &str, middle: &str) -> (r: String)
    ensures
        r@ == "File '"@ + path@ + middle@,
{
    let mut r = String::new();
    push_str(&mut r, "File '");
    push_str(&mut r, path);
    push_str(&mut r, middle);
    r
}

impl InputProcessor {
    /// Combines the input sources into the final prompt: the system prompt
    /// if any, each file (as a path and its content, in the order given) in
    /// a fenced block, then the user's prompt.
    pub fn build_prompt(
        base_prompt: String,
        files: &[(String, String)],
        system_prompt: Option<&str>,
    ) -> (r: String)
        ensures
            r@ == spec_build_prompt(
                base_prompt@,
                files@,
                match system_prompt {
                    Some(s) => Some(s@),
                    None => None,
                },
            ),
    {
        let mut final_prompt = String::new();
        match system_prompt {
            Some(system) => {
                push_str(&mut final_prompt, "System: ");
                push_str(&mut final_prompt, system);
                push_str(&mut final_prompt, "\n\n");
            },
            None => {},
        }
        let ghost head = final_prompt@;
        let mut i: usize = 0;
        while i < files.len()
            invariant
                i <= files@.len(),
                final_prompt@ == head + files_part(files@, i as int),
            decreases files.len() - i,
        {
            let (path, content) = &files[i];
            push_file_part(&mut final_prompt, path, content);
            i = i + 1;
            assert(final_prompt@ =~= head + files_part(files@, i as int));
        }
        push_string(&mut final_prompt, &base_prompt);
        proof {
            let sys = match system_prompt {
                Some(s) => Some(s@),
                None => None,
            };
            if system_prompt is None {
                assert(head =~= system_part(sys));
            }
        }
        final_prompt
    }

    /// The verdict on a file's size, before it is read: an error above
    /// 10 MiB, a warning above 1 MiB.
    pub fn check_file_size(file_path: &str, size: u64) -> (r: Result<Option<String>, String>)
        ensures
            size > MAX_FILE_BYTES ==> (r matches Err(e) && e@ == too_large_file_text(
                file_path@,
                size,
            )),
            LARGE_FILE_BYTES < size <= MAX_FILE_BYTES ==> (r matches Ok(Some(w)) && w@
                == large_file_text(file_path@, size)),
            size <= LARGE_FILE_BYTES ==> r matches Ok(None),
    {
        if size > MAX_FILE_BYTES {
            let mut e = file_message(file_path, "' is too large (");
            let digits = u64_to_string(size);
            push_string(&mut e, &digits);
            push_str(&mut e, " bytes). Maximum file size is 10MB.");
            Err(e)
        } else if size > LARGE_FILE_BYTES {
            let mut w = String::new();
            push_str(&mut w, "Warning: File '");
            push_str(&mut w, file_path);
            push_str(&mut w, "' is large (");
            let digits = u64_to_string(size);
            push_string(&mut w, &digits);
            push_str(&mut w, " bytes). This may impact performance.");
            Ok(Some(w))
        } else {
            Ok(None)
        }
    }

    /// The verdict on a file's content once read: binary content or
    /// replacement characters refuse it.
    pub fn check_file_content(file_path: &str, content: &str) -> (r: Result<(), String>)
        ensures
            has_binary_char(content@) ==> (r matches Err(e) && e@ == binary_file_text(
                file_path@,
            )),
            !has_binary_char(content@) && content@.contains('\u{FFFD}') ==> (r matches Err(e)
                && e@ == invalid_file_text(file_path@)),
            !has_binary_char(content@) && !content@.contains('\u{FFFD}') ==> r is Ok,
    {
        let v = chars_of(content);
        if any_binary_char(&v) {
            return Err(
                file_message(file_path, "' appears to be binary. Please provide text files only."),
            );
        }
        if has_char(&v, '\u{FFFD}') {
            return Err(file_message(file_path, "' contains invalid UTF-8 sequences"));
        }
        Ok(())
    }

    /// Whether content contains binary data: a control character other than
    /// newline, tab and carriage return.
    pub fn is_binary_content(content: &str) -> (b: bool)
        ensures
            b == has_binary_char(content@),
    {
        let v = chars_of(content);
        any_binary_char(&v)
    }

    /// Validates prompt content: not empty or blank, no binary content, no
    /// replacement characters, at most 1 MB.
    pub fn validate_prompt(prompt: &str) -> (r: Result<(), String>)
        requires
            byte_len(prompt@) <= usize::MAX,
        ensures
            match spec_validate_prompt(prompt@) {
                Ok(()) => r is Ok,
                Err(e) => (r matches Err(m) && m@ == e),
            },
    {
        let v = chars_of(prompt);
        let (a, b) = trim_bounds(&v);
        if a == b {
            return Err("Prompt cannot be empty or contain only whitespace".to_owned());
        }
        if any_binary_char(&v) {
            return Err(
                "Prompt contains binary or control characters. Please provide text content only.".to_owned(),
            );
        }
        if has_char(&v, '\u{FFFD}') {
            return Err("Prompt contains invalid UTF-8 sequences".to_owned());
        }
        let n = str_len(prompt);
        if n > MAX_PROMPT_BYTES {
            let mut e = String::new();
            push_str(&mut e, "Prompt is too large (");
            let digits = u64_to_string(n as u64);
            push_string(&mut e, &digits);
            push_str(&mut e, " characters). Maximum prompt size is 1MB.");
            return Err(e);
        }
        Ok(())
    }

    /// The warning for an accepted prompt that is very large.
    pub fn prompt_size_warning(prompt: &str) -> (r: Option<String>)
        requires
            byte_len(prompt@) <= usize::MAX,
        ensures
            LARGE_PROMPT_BYTES < byte_len(prompt@) <= MAX_PROMPT_BYTES ==> (r matches Some(w)
                && w@ == large_prompt_text(byte_len(prompt@))),
            !(LARGE_PROMPT_BYTES < byte_len(prompt@) <= MAX_PROMPT_BYTES) ==> r is None,
    {
        let n = str_len(prompt);
        if n > LARGE_PROMPT_BYTES && n <= MAX_PROMPT_BYTES {
            let mut w = String::new();
            push_str(&mut w, "Warning: Prompt is very large (");
            let digits = u64_to_string(n as u64);
            push_string(&mut w, &digits);
            push_str(&mut w, " characters). This may impact performance.");
            Some(w)
        } else {
            None
        }
    }

    /// Validates the max tokens parameter: it must be positive.
    pub fn validate_max_tokens(max_tokens: u32) -> (r: Result<(), String>)
        ensures
            max_tokens == 0 ==> (r matches Err(e) && e@ == zero_max_tokens_text()),
            max_tokens > 0 ==> r is Ok,
    {
        if max_tokens == 0 {
            return Err("Max tokens must be greater than 0, got: 0".to_owned());
        }
        Ok(())
    }

    /// The warning for a very large token limit.
    pub fn max_tokens_warning(max_tokens: u32) -> (r: Option<String>)
        ensures
            max_tokens > LARGE_MAX_TOKENS ==> (r matches Some(w) && w@ == large_max_tokens_text(
                max_tokens,
            )),
            max_tokens <= LARGE_MAX_TOKENS ==> r is None,
    {
        if max_tokens > LARGE_MAX_TOKENS {
            let mut w = String::new();
            push_str(&mut w, "Warning: Max tokens is very large (");
            let digits = u64_to_string(max_tokens as u64);
            push_string(&mut w, &digits);
            push_str(&mut w, ")");
            Some(w)
        } else {
            None
        }
    }
}

/// Where the block of file `i` starts in the prompt.
pub open spec fn file_offset(files: Seq<(String, String)>, system: Option<Seq<char>>, i: int) -> int {
    (system_part(system).len() + files_part(files, i).len()) as int
}

proof fn lemma_files_part_prefix(files: Seq<(String, String)>, i: int, j: int)
    requires
        0 <= i <= j <= files.len(),
    ensures
        files_part(files, j).subrange(0, files_part(files, i).len() as int) == files_part(files, i),
        files_part(files, i).len() + (j - i) <= files_part(files, j).len(),
    decreases j - i,
{
    if i < j {
        lemma_files_part_prefix(files, i, j - 1);
        let a = files_part(files, j - 1);
        let b = file_part(files[j - 1].0@, files[j - 1].1@);
        reveal_strlit("File: ");
        assert(b.len() > 0);
        assert((a + b).subrange(0, files_part(files, i).len() as int) =~= a.subrange(
            0,
            files_part(files, i).len() as int,
        ));
    } else {
        assert(files_part(files, i).subrange(0, files_part(files, i).len() as int) =~= files_part(
            files,
            i,
        ));
    }
}

/// Files are included in the order given: the block of each file stands in
/// the prompt at its offset, and a later file's block starts after an
/// earlier one's.
pub proof fn law_files_in_order(
    base: Seq<char>,
    files: Seq<(String, String)>,
    system: Option<Seq<char>>,
    i: int,
    j: int,
)
    requires
        0 <= i < j < files.len(),
    ensures
        crate::text::occurs_at(
            spec_build_prompt(base, files, system),
            file_part(files[i].0@, files[i].1@),
            file_offset(files, system, i),
        ),
        file_offset(files, system, i) < file_offset(files, system, j),
{
    let n = files.len() as int;
    let r = spec_build_prompt(base, files, system);
    let sys = system_part(system);
    let fi = file_part(files[i].0@, files[i].1@);
    lemma_files_part_prefix(files, i + 1, n);
    lemma_files_part_prefix(files, i + 1, j);
    lemma_files_part_prefix(files, i, i + 1);
    let p1 = files_part(files, i + 1);
    assert(p1 == files_part(files, i) + fi);
    let off = file_offset(files, system, i);
    assert(r.subrange(off, off + fi.len()) =~= fi) by {
        assert forall|k: int| 0 <= k < fi.len() implies r.subrange(off, off + fi.len())[k]
            == fi[k] by {
            assert(r[off + k] == files_part(files, n)[files_part(files, i).len() + k]);
            assert(files_part(files, n)[files_part(files, i).len() + k] == files_part(files, n).subrange(0, p1.len() as int)[files_part(files, i).len() + k]);
        }
    }
}

} // verus!
