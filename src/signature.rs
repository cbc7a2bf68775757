//! Locating the signature-decoding routine in the player script, assembling
//! it into a program, and handing that program to a script evaluator.
use crate::error::ParsingError;
use crate::text::{concat2, concat3, replace_char, replaced};
use vstd::prelude::*;

verus! {

/// The name under which the assembled program exposes the decoding routine.
pub const DECRYPTION_FUNC_NAME: &'static str = "decrypt";

/// Patterns that recognise the definition of the decoding function, in the
/// order in which they are tried; group 1 holds the function's name.
pub const FUNC_NAME_PATTERN_A: &'static str = "(?:\\b|[^a-zA-Z0-9$])([a-zA-Z0-9$]{2})\\s*=\\s*function\\(\\s*a\\s*\\)\\s*\\{\\s*a\\s*=\\s*a\\.split\\(\\s*\"\"\\s*\\)";
pub const FUNC_NAME_PATTERN_B: &'static str = "([\\w$]+)\\s*=\\s*function\\((\\w+)\\)\\{\\s*\\2=\\s*\\2\\.split\\(\"\"\\)\\s*;";
pub const FUNC_NAME_PATTERN_C: &'static str = "\\b([\\w$]{2})\\s*=\\s*function\\((\\w+)\\)\\{\\s*\\2=\\s*\\2\\.split\\(\"\"\\)\\s*;";
pub const FUNC_NAME_PATTERN_D: &'static str = "yt\\.akamaized\\.net/\\)\\s*\\|\\|\\s*.*?\\s*c\\s*&&\\s*d\\.set\\([^,]+\\s*,\\s*(?:encodeURIComponent\\s*\\()([a-zA-Z0-9$]+)\\(";
pub const FUNC_NAME_PATTERN_E: &'static str = "\\bc\\s*&&\\s*d\\.set\\([^,]+\\s*,\\s*(?:encodeURIComponent\\s*\\()([a-zA-Z0-9$]+)\\(";

/// The pattern that finds the helper object named in the decoding function.
pub const HELPER_NAME_PATTERN: &'static str = ";([A-Za-z0-9_\\$]{2})\\...\\(";

/// Group 1 of the first match of `pattern` in `text` under fancy_regex;
/// nothing where the pattern is refused, the search fails or finds no match,
/// or group 1 took no part in the match.
pub uninterp spec fn fancy_group1(pattern: Seq<char>, text: Seq<char>) -> Option<Seq<char>>;

/// Relies on fancy_regex::Regex::new and Regex::captures: the first match of
/// the pattern in the text, and its group 1.
#[verifier::external_body]
fn fancy_first_group(pattern: &str, text: &str) -> (r: Option<String>)
    ensures
        match r {
            Some(g) => fancy_group1(pattern@, text@) == Some(g@),
            None => fancy_group1(pattern@, text@) is None,
        },
{
    let re = fancy_regex::Regex::new(pattern).ok()?;
    let caps = re.captures(text).ok()??;
    caps.get(1).map(|m| m.as_str().to_string())
}

/// The name of the decoding function: group 1 of the first pattern of the
/// cascade that matches.
pub open spec fn func_name_of(script: Seq<char>) -> Option<Seq<char>> {
    let a = fancy_group1(FUNC_NAME_PATTERN_A@, script);
    let b = fancy_group1(FUNC_NAME_PATTERN_B@, script);
    let c = fancy_group1(FUNC_NAME_PATTERN_C@, script);
    let d = fancy_group1(FUNC_NAME_PATTERN_D@, script);
    let e = fancy_group1(FUNC_NAME_PATTERN_E@, script);
    if a is Some {
        a
    } else if b is Some {
        b
    } else if c is Some {
        c
    } else if d is Some {
        d
    } else {
        e
    }
}

/// A name made literal inside a pattern: each `$` is escaped.
pub open spec fn escaped_name(name: Seq<char>) -> Seq<char> {
    replaced(name, '$', "\\$"@)
}

/// The pattern that captures the definition of the function `name`.
pub open spec fn function_pattern(name: Seq<char>) -> Seq<char> {
    "("@ + escaped_name(name) + "=function\\([a-zA-Z0-9_]+\\)\\{.+?\\})"@
}

/// The pattern that captures the literal of the helper object `name`.
pub open spec fn helper_pattern(name: Seq<char>) -> Seq<char> {
    "(var "@ + escaped_name(name) + "=\\{.+?\\}\\};)"@
}

/// The wrapper that exposes the function `name` as `decrypt`.
pub open spec fn caller_function(name: Seq<char>) -> Seq<char> {
    "function "@ + DECRYPTION_FUNC_NAME@ + "(a){return "@ + name + "(a);}"@
}

/// The decoding program assembled from a player script: the helper object's
/// literal, the decoding function as a `var`, and the `decrypt` wrapper; or
/// nothing where a step of the search finds nothing.
pub open spec fn decryption_program(script: Seq<char>) -> Option<Seq<char>> {
    match func_name_of(script) {
        None => None,
        Some(name) => match fancy_group1(function_pattern(name), script) {
            None => None,
            Some(body) => {
                let func = "var "@ + body + ";"@;
                match fancy_group1(HELPER_NAME_PATTERN@, func) {
                    None => None,
                    Some(helper) => match fancy_group1(
                        helper_pattern(helper),
                        replaced(script, '\n', ""@),
                    ) {
                        None => None,
                        Some(object) => Some(object + func + caller_function(name)),
                    },
                }
            },
        },
    }
}

/// Group 1 of the first match of `reg` in `text`.
pub fn match_group1(reg: &str, text: &str) -> (r: Result<String, ParsingError>)
    ensures
        match r {
            Ok(g) => fancy_group1(reg@, text@) == Some(g@),
            Err(e) => fancy_group1(reg@, text@) is None && e.is_parsing(),
        },
{
    match fancy_first_group(reg, text) {
        Some(g) => Ok(g),
        None => Err(ParsingError::parsing_error_from_str("regex not match")),
    }
}

/// The name of the decoding function, found by the cascade of patterns.
pub fn decryption_func_name(script: &str) -> (r: Option<String>)
    ensures
        match r {
            Some(n) => func_name_of(script@) == Some(n@),
            None => func_name_of(script@) is None,
        },
{
    let a = fancy_first_group(FUNC_NAME_PATTERN_A, script);
    if a.is_some() {
        return a;
    }
    let b = fancy_first_group(FUNC_NAME_PATTERN_B, script);
    if b.is_some() {
        return b;
    }
    let c = fancy_first_group(FUNC_NAME_PATTERN_C, script);
    if c.is_some() {
        return c;
    }
    let d = fancy_first_group(FUNC_NAME_PATTERN_D, script);
    if d.is_some() {
        return d;
    }
    fancy_first_group(FUNC_NAME_PATTERN_E, script)
}

/// Assembles the decoding program from the player script.
pub fn load_decryption_code(script: &str) -> (r: Result<String, ParsingError>)
    ensures
        match r {
            Ok(p) => decryption_program(script@) == Some(p@),
            Err(e) => decryption_program(script@) is None && e.is_parsing(),
        },
{
    let name = match decryption_func_name(script) {
        Some(n) => n,
        None => return Err(ParsingError::parsing_error_from_str("Cant find decryption function")),
    };
    let escaped = replace_char(name.as_str(), '$', "\\$");
    let fpattern = concat3("(", escaped.as_str(), "=function\\([a-zA-Z0-9_]+\\)\\{.+?\\})");
    let body = match match_group1(fpattern.as_str(), script) {
        Ok(x) => x,
        Err(e) => return Err(e),
    };
    let func = concat3("var ", body.as_str(), ";");
    let helper = match match_group1(HELPER_NAME_PATTERN, func.as_str()) {
        Ok(x) => x,
        Err(e) => return Err(e),
    };
    let escaped_helper = replace_char(helper.as_str(), '$', "\\$");
    let hpattern = concat3("(var ", escaped_helper.as_str(), "=\\{.+?\\}\\};)");
    let flat = replace_char(script, '\n', "");
    let object = match match_group1(hpattern.as_str(), flat.as_str()) {
        Ok(x) => x,
        Err(e) => return Err(e),
    };
    let mut caller = concat3("function ", DECRYPTION_FUNC_NAME, "(a){return ");
    caller.append(name.as_str());
    caller.append("(a);}");
    let mut program = concat2(object.as_str(), func.as_str());
    program.append(caller.as_str());
    Ok(program)
}

/// The script handed to the evaluator: the program, then a call of `decrypt`
/// on the token as a string literal.
pub open spec fn decryption_script(program: Seq<char>, token: Seq<char>) -> Seq<char> {
    program + ";decrypt(\""@ + token + "\")"@
}

pub fn build_decryption_script(program: &str, token: &str) -> (r: String)
    ensures
        r@ == decryption_script(program@, token@),
{
    let mut s = concat3(program, ";decrypt(\"", token);
    s.append("\")");
    s
}

/// Evaluates scripts for the library. The host supplies it; a failed
/// evaluation is reported as `Err`.
pub trait JsEvaluator {
    fn eval_js(&self, script: &str) -> Result<String, String>;
}

/// The decoded signature from an evaluation's outcome: a failure counts as an
/// empty signature.
pub fn signature_from_eval(outcome: Result<String, String>) -> (r: String)
    ensures
        match outcome {
            Ok(s) => r@ == s@,
            Err(_) => r@ == Seq::<char>::empty(),
        },
{
    match outcome {
        Ok(s) => s,
        Err(_) => String::new(),
    }
}

/// Runs the decoding program on an encrypted signature through the evaluator.
pub fn decrypt_signature<E: JsEvaluator>(evaluator: &E, encrypted_sig: &str, program: &str) -> (r: String) {
    let script = build_decryption_script(program, encrypted_sig);
    signature_from_eval(evaluator.eval_js(script.as_str()))
}

/// Locating the decoding program depends on the script text alone: the same
/// text always gives the same program. Where none of the five patterns of
/// the cascade matches, there is no program.
pub proof fn lemma_locate_deterministic(first: Seq<char>, second: Seq<char>)
    ensures
        first == second ==> decryption_program(first) == decryption_program(second),
        fancy_group1(FUNC_NAME_PATTERN_A@, first) is None && fancy_group1(
            FUNC_NAME_PATTERN_B@,
            first,
        ) is None && fancy_group1(FUNC_NAME_PATTERN_C@, first) is None && fancy_group1(
            FUNC_NAME_PATTERN_D@,
            first,
        ) is None && fancy_group1(FUNC_NAME_PATTERN_E@, first) is None ==> decryption_program(
            first,
        ) is None,
{
}

} // verus!
