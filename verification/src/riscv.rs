use vstd::prelude::*;

use crate::text::{
    ends_with, ends_with_spec, holds_text, lemma_holds_before, lemma_holds_between,
};

verus! {

/// The manifest of a crate: `file_name` itself where it names a
/// `Cargo.toml`, else the `Cargo.toml` in the directory `file_name`.
pub open spec fn cargo_manifest_path_text(file_name: Seq<char>) -> Seq<char> {
    if ends_with_spec(file_name, "Cargo.toml"@) {
        file_name
    } else {
        file_name + "/Cargo.toml"@
    }
}

/// The ten characters of the manifest's file name.
pub open spec fn manifest_file_name() -> Seq<char> {
    seq!['C', 'a', 'r', 'g', 'o', '.', 't', 'o', 'm', 'l']
}

/// A path whose text ends in `Cargo.toml` is the manifest itself; any other
/// path is a directory, whose manifest is `Cargo.toml` inside it.
pub proof fn lemma_manifest_path(file_name: Seq<char>)
    ensures
        file_name.len() >= 10 && file_name.subrange(file_name.len() - 10, file_name.len() as int)
            == manifest_file_name() ==> cargo_manifest_path_text(file_name) == file_name,
        !(file_name.len() >= 10 && file_name.subrange(file_name.len() - 10, file_name.len() as int)
            == manifest_file_name()) ==> cargo_manifest_path_text(file_name) == file_name + seq![
            '/',
        ] + manifest_file_name(),
{
    reveal_strlit("Cargo.toml");
    reveal_strlit("/Cargo.toml");
    assert("Cargo.toml"@ =~= manifest_file_name());
    assert("/Cargo.toml"@ =~= seq!['/'] + manifest_file_name());
    assert(file_name + "/Cargo.toml"@ =~= file_name + seq!['/'] + manifest_file_name());
}

pub fn cargo_manifest_path(file_name: &str) -> (r: String)
    ensures
        r@ == cargo_manifest_path_text(file_name@),
{
    if ends_with(file_name, "Cargo.toml") {
        String::from_str(file_name)
    } else {
        let mut r = String::from_str(file_name);
        r.append("/Cargo.toml");
        r
    }
}

/// The stem of the path `path`, as Rust's `Path::file_stem` gives it: the
/// last component without its extension, none where the path has no file
/// name.
pub uninterp spec fn path_file_stem(path: Seq<char>) -> Option<Seq<char>>;

/// Calls `Path::file_stem` on `path`. The result is a function of `path`
/// alone and is named `path_file_stem`; nothing more is claimed of it here.
#[verifier::external_body]
fn file_stem(path: &str) -> (r: Option<String>)
    ensures
        match r {
            Some(stem) => path_file_stem(path@) == Some(stem@),
            None => path_file_stem(path@) is None,
        },
{
    match std::path::Path::new(path).file_stem() {
        Some(stem) => Some(stem.to_string_lossy().into_owned()),
        None => None,
    }
}

/// `stem` followed by `suffix`, where the path `file_name` has a stem.
pub open spec fn stem_with(file_name: Seq<char>, suffix: Seq<char>) -> Option<Seq<char>> {
    match path_file_stem(file_name) {
        Some(stem) => Some(stem + suffix),
        None => None,
    }
}

/// The stem of `file_name` followed by `suffix`; `None` where the path has
/// no file name.
fn stem_and(file_name: &str, suffix: &str) -> (r: Option<String>)
    ensures
        match r {
            Some(name) => stem_with(file_name@, suffix@) == Some(name@),
            None => stem_with(file_name@, suffix@) is None,
        },
{
    match file_stem(file_name) {
        Some(stem) => {
            let mut r = stem;
            r.append(suffix);
            Some(r)
        },
        None => None,
    }
}

/// The file that receives the RISC-V assembly compiled from the source
/// `file_name`: its stem followed by `_riscv.asm`.
pub fn riscv_asm_file_name(file_name: &str) -> (r: Option<String>)
    ensures
        match r {
            Some(name) => stem_with(file_name@, "_riscv.asm"@) == Some(name@),
            None => path_file_stem(file_name@) is None,
        },
{
    stem_and(file_name, "_riscv.asm")
}

/// The file that receives the powdr assembly compiled from the source
/// `file_name`: its stem followed by `.asm`.
pub fn powdr_asm_file_name(file_name: &str) -> (r: Option<String>)
    ensures
        match r {
            Some(name) => stem_with(file_name@, ".asm"@) == Some(name@),
            None => path_file_stem(file_name@) is None,
        },
{
    stem_and(file_name, ".asm")
}

/// A target file is written unless it exists and overwriting was not asked for.
pub fn may_write(target_exists: bool, force_overwrite: bool) -> (r: bool)
    ensures
        r == (!target_exists || force_overwrite),
{
    !target_exists || force_overwrite
}

/// `parts`, each with `separator` in front of it, one after the other.
pub open spec fn prefixed_concat(parts: Seq<Seq<char>>, separator: Seq<char>) -> Seq<char>
    decreases parts.len(),
{
    if parts.len() == 0 {
        Seq::empty()
    } else {
        prefixed_concat(parts.drop_last(), separator) + separator + parts.last()
    }
}

/// The contents of `files` (name and text), one after the other, each on
/// a new line.
pub open spec fn merged_asm_text(files: Seq<(String, String)>) -> Seq<char> {
    prefixed_concat(files.map_values(|f: (String, String)| f.1@), "\n"@)
}

/// The length of `parts` with `separator_len` characters in front of each.
pub open spec fn prefixed_len(parts: Seq<Seq<char>>, separator_len: nat) -> nat
    decreases parts.len(),
{
    if parts.len() == 0 {
        0
    } else {
        prefixed_len(parts.drop_last(), separator_len) + separator_len + parts.last().len()
    }
}

/// Putting `separator` in front of each part and the parts one after the
/// other keeps every part, right after a separator, and adds nothing else.
pub proof fn lemma_prefixed_concat_keeps_parts(parts: Seq<Seq<char>>, separator: Seq<char>)
    ensures
        prefixed_concat(parts, separator).len() == prefixed_len(parts, separator.len()),
        forall|i: int|
            0 <= i < parts.len() ==> holds_text(
                prefixed_concat(parts, separator),
                separator + #[trigger] parts[i],
            ),
    decreases parts.len(),
{
    if parts.len() > 0 {
        let prefix = parts.drop_last();
        let before = prefixed_concat(prefix, separator);
        lemma_prefixed_concat_keeps_parts(prefix, separator);
        assert forall|i: int| 0 <= i < parts.len() implies holds_text(
            prefixed_concat(parts, separator),
            separator + #[trigger] parts[i],
        ) by {
            if i < prefix.len() {
                assert(prefix[i] == parts[i]);
                lemma_holds_before(before, separator + parts.last(), separator + parts[i]);
                assert(before + (separator + parts.last()) =~= before + separator + parts.last());
            } else {
                lemma_holds_between(before, separator + parts.last(), Seq::empty());
                assert(before + (separator + parts.last()) + Seq::<char>::empty() =~= before
                    + separator + parts.last());
            }
        }
    }
}

/// The merged assembly holds the text of every file, each after a newline,
/// and nothing more.
pub proof fn lemma_merged_asm_keeps_every_file(files: Seq<(String, String)>)
    ensures
        merged_asm_text(files).len() == prefixed_len(
            files.map_values(|f: (String, String)| f.1@),
            1,
        ),
        forall|i: int|
            0 <= i < files.len() ==> holds_text(
                merged_asm_text(files),
                seq!['\n'] + (#[trigger] files[i]).1@,
            ),
{
    reveal_strlit("\n");
    let parts = files.map_values(|f: (String, String)| f.1@);
    assert("\n"@ =~= seq!['\n']);
    lemma_prefixed_concat_keeps_parts(parts, "\n"@);
    assert forall|i: int| 0 <= i < files.len() implies holds_text(
        merged_asm_text(files),
        seq!['\n'] + (#[trigger] files[i]).1@,
    ) by {
        assert(parts[i] == files[i].1@);
    }
}

/// The bundle holds every compiled file, each after an empty line, and
/// nothing more.
pub proof fn lemma_bundle_keeps_every_file(compiled: Seq<String>)
    ensures
        prefixed_concat(compiled.map_values(|c: String| c@), "\n\n"@).len() == prefixed_len(
            compiled.map_values(|c: String| c@),
            2,
        ),
        forall|i: int|
            0 <= i < compiled.len() ==> holds_text(
                prefixed_concat(compiled.map_values(|c: String| c@), "\n\n"@),
                seq!['\n', '\n'] + (#[trigger] compiled[i])@,
            ),
{
    reveal_strlit("\n\n");
    let parts = compiled.map_values(|c: String| c@);
    assert("\n\n"@ =~= seq!['\n', '\n']);
    lemma_prefixed_concat_keeps_parts(parts, "\n\n"@);
    assert forall|i: int| 0 <= i < compiled.len() implies holds_text(
        prefixed_concat(parts, "\n\n"@),
        seq!['\n', '\n'] + (#[trigger] compiled[i])@,
    ) by {
        assert(parts[i] == compiled[i]@);
    }
}

/// A file is assembly exactly when its name ends in `.s`.
pub proof fn lemma_asm_file_suffix(name: Seq<char>)
    ensures
        ends_with_spec(name, ".s"@) <==> name.len() >= 2 && name[name.len() - 2] == '.'
            && name[name.len() - 1] == 's',
{
    reveal_strlit(".s");
    if name.len() >= 2 && name[name.len() - 2] == '.' && name[name.len() - 1] == 's' {
        assert(name.subrange(name.len() - 2, name.len() as int) =~= ".s"@);
    }
    if ends_with_spec(name, ".s"@) {
        assert(name.subrange(name.len() - 2, name.len() as int)[0] == name[name.len() - 2]);
        assert(name.subrange(name.len() - 2, name.len() as int)[1] == name[name.len() - 1]);
    }
}

/// Merges the assembly files of a crate into one text.
pub fn merge_asm(files: &[(String, String)]) -> (r: String)
    ensures
        r@ == merged_asm_text(files@),
{
    let ghost parts = files@.map_values(|f: (String, String)| f.1@);
    let mut r = String::new();
    let mut i: usize = 0;
    while i < files.len()
        invariant
            i <= files@.len(),
            parts == files@.map_values(|f: (String, String)| f.1@),
            r@ == prefixed_concat(parts.take(i as int), "\n"@),
        decreases files@.len() - i,
    {
        proof {
            assert(parts.take(i + 1).drop_last() =~= parts.take(i as int));
            assert(parts.take(i + 1).last() == files@[i as int].1@);
        }
        r.append("\n");
        r.append(files[i].1.as_str());
        i = i + 1;
    }
    assert(parts.take(i as int) =~= parts);
    r
}

/// The powdr assembly of several compiled files, one after the other, each
/// after an empty line.
pub fn bundle_asm(compiled: &[String]) -> (r: String)
    ensures
        r@ == prefixed_concat(compiled@.map_values(|c: String| c@), "\n\n"@),
{
    let ghost parts = compiled@.map_values(|c: String| c@);
    let mut r = String::new();
    let mut i: usize = 0;
    while i < compiled.len()
        invariant
            i <= compiled@.len(),
            parts == compiled@.map_values(|c: String| c@),
            r@ == prefixed_concat(parts.take(i as int), "\n\n"@),
        decreases compiled@.len() - i,
    {
        proof {
            assert(parts.take(i + 1).drop_last() =~= parts.take(i as int));
            assert(parts.take(i + 1).last() == compiled@[i as int]@);
        }
        r.append("\n\n");
        r.append(compiled[i].as_str());
        i = i + 1;
    }
    assert(parts.take(i as int) =~= parts);
    r
}

pub const CRATE_MANIFEST_HEAD: &'static str = "[package]
name = \"";

pub const CRATE_MANIFEST_TAIL: &'static str = "\"
version = \"0.1.0\"
edition = \"2021\"
            ";

/// The manifest of a library crate named after the stem of the source
/// `file_name`; `None` where the path has no file name.
pub fn crate_manifest(file_name: &str) -> (r: Option<String>)
    ensures
        match r {
            Some(manifest) => path_file_stem(file_name@) matches Some(stem) && manifest@
                == CRATE_MANIFEST_HEAD@ + stem + CRATE_MANIFEST_TAIL@,
            None => path_file_stem(file_name@) is None,
        },
{
    match file_stem(file_name) {
        Some(stem) => {
            let mut r = String::from_str(CRATE_MANIFEST_HEAD);
            r.append(stem.as_str());
            r.append(CRATE_MANIFEST_TAIL);
            Some(r)
        },
        None => None,
    }
}

/// The file `name` holds assembly that the compiler emitted.
pub fn is_asm_file(name: &str) -> (r: bool)
    ensures
        r == ends_with_spec(name@, ".s"@),
{
    ends_with(name, ".s")
}

/// The arguments of the cargo call that builds the crate of `manifest_path`
/// for RISC-V into `target_dir`.
pub open spec fn cargo_build_args_text(target_dir: Seq<char>, manifest_path: Seq<char>) -> Seq<
    Seq<char>,
> {
    seq![
        "build"@,
        "--release"@,
        "-Z"@,
        "build-std=core"@,
        "--target"@,
        "riscv32imc-unknown-none-elf"@,
        "--lib"@,
        "--target-dir"@,
        target_dir,
        "--manifest-path"@,
        manifest_path,
    ]
}

pub fn cargo_build_args(target_dir: &str, manifest_path: &str) -> (r: Vec<String>)
    ensures
        r@.map_values(|a: String| a@) == cargo_build_args_text(target_dir@, manifest_path@),
{
    let mut r: Vec<String> = Vec::new();
    r.push(String::from_str("build"));
    r.push(String::from_str("--release"));
    r.push(String::from_str("-Z"));
    r.push(String::from_str("build-std=core"));
    r.push(String::from_str("--target"));
    r.push(String::from_str("riscv32imc-unknown-none-elf"));
    r.push(String::from_str("--lib"));
    r.push(String::from_str("--target-dir"));
    r.push(String::from_str(target_dir));
    r.push(String::from_str("--manifest-path"));
    r.push(String::from_str(manifest_path));
    assert(r@.map_values(|a: String| a@) =~= cargo_build_args_text(target_dir@, manifest_path@));
    r
}

/// The flags that make rustc emit assembly.
pub const RUSTFLAGS_EMIT_ASM: &'static str = "--emit=asm";

} // verus!
