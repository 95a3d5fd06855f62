use crate::actions::{Action, OutFormat};
use vstd::prelude::*;
use vstd::string::StringSliceAdditionalSpecFns;

verus! {

/// The extension of a file name: the bytes after the last `.` (byte
/// 46), or the whole name when it has none — what splitting on `.` and
/// keeping the last piece yields.
pub open spec fn ext_of(name: Seq<u8>) -> Seq<u8>
    decreases name.len(),
{
    if name.len() == 0 {
        name
    } else if name[name.len() - 1] == 46u8 {
        Seq::empty()
    } else {
        ext_of(name.drop_last()).push(name[name.len() - 1])
    }
}

/// The suffix of `name` from `start` on is its extension, provided no
/// `.` stands at or after `start` and `start` is either the name's
/// beginning or just after a `.`.
pub proof fn lemma_ext_is_suffix(name: Seq<u8>, start: int)
    requires
        0 <= start <= name.len(),
        start == 0 || name[start - 1] == 46u8,
        forall|j: int| start <= j < name.len() ==> name[j] != 46u8,
    ensures
        ext_of(name) == name.subrange(start, name.len() as int),
    decreases name.len(),
{
    if start == name.len() {
        assert(name.subrange(start, name.len() as int) =~= Seq::<u8>::empty());
        if name.len() == 0 {
            assert(ext_of(name) =~= Seq::<u8>::empty());
        }
    } else {
        let prefix = name.drop_last();
        assert(forall|j: int| start <= j < prefix.len() ==> prefix[j] != 46u8);
        lemma_ext_is_suffix(prefix, start);
        assert(ext_of(name) == ext_of(prefix).push(name[name.len() - 1]));
        assert(prefix.subrange(start, prefix.len() as int).push(name[name.len() - 1]) =~= name
            .subrange(start, name.len() as int));
    }
}

/// The default encoding for an extension: `png`, `jpg`/`jpeg`, `bmp`,
/// `gif` and `ico` map to their formats (JPEG at quality 100); anything
/// else maps to PNG.
pub open spec fn format_for_ext(e: Seq<u8>) -> OutFormat {
    if e == seq![112u8, 110u8, 103u8] {
        OutFormat::Png
    } else if e == seq![106u8, 112u8, 103u8] || e == seq![106u8, 112u8, 101u8, 103u8] {
        OutFormat::Jpeg(100)
    } else if e == seq![98u8, 109u8, 112u8] {
        OutFormat::Bmp
    } else if e == seq![103u8, 105u8, 102u8] {
        OutFormat::Gif
    } else if e == seq![105u8, 99u8, 111u8] {
        OutFormat::Ico
    } else {
        OutFormat::Png
    }
}

/// The encoding an output file name asks for through its extension.
pub open spec fn default_format_spec(name: Seq<u8>) -> OutFormat {
    format_for_ext(ext_of(name))
}

/// Determines the extension-derived default encoding of an output file
/// name: `.png`, `.jpg`/`.jpeg`, `.bmp`, `.gif` and `.ico` select their
/// formats; an unrecognized or absent extension selects PNG.
pub fn default_format(name: &str) -> (r: OutFormat)
    ensures
        r == default_format_spec(name.spec_bytes()),
{
    let bytes = name.as_bytes();
    let n = bytes.len();
    let mut start: usize = 0;
    let mut i: usize = 0;
    while i < n
        invariant
            n == bytes@.len(),
            bytes@ == name.spec_bytes(),
            i <= n,
            start <= i,
            start == 0 || bytes@[start as int - 1] == 46u8,
            forall|j: int| start as int <= j < i as int ==> bytes@[j] != 46u8,
        decreases n - i,
    {
        if bytes[i] == 46 {
            start = i + 1;
        }
        i = i + 1;
    }
    proof {
        lemma_ext_is_suffix(bytes@, start as int);
    }
    let ghost e = ext_of(name.spec_bytes());
    let len = n - start;
    let r = if len == 3 && bytes[start] == 112 && bytes[start + 1] == 110 && bytes[start + 2]
        == 103 {
        proof {
            assert(e =~= seq![112u8, 110u8, 103u8]);
        }
        OutFormat::Png
    } else if len == 3 && bytes[start] == 106 && bytes[start + 1] == 112 && bytes[start + 2]
        == 103 {
        proof {
            assert(e =~= seq![106u8, 112u8, 103u8]);
        }
        OutFormat::Jpeg(100)
    } else if len == 4 && bytes[start] == 106 && bytes[start + 1] == 112 && bytes[start + 2] == 101
        && bytes[start + 3] == 103 {
        proof {
            assert(e =~= seq![106u8, 112u8, 101u8, 103u8]);
        }
        OutFormat::Jpeg(100)
    } else if len == 3 && bytes[start] == 98 && bytes[start + 1] == 109 && bytes[start + 2] == 112 {
        proof {
            assert(e =~= seq![98u8, 109u8, 112u8]);
        }
        OutFormat::Bmp
    } else if len == 3 && bytes[start] == 103 && bytes[start + 1] == 105 && bytes[start + 2]
        == 102 {
        proof {
            assert(e =~= seq![103u8, 105u8, 102u8]);
        }
        OutFormat::Gif
    } else if len == 3 && bytes[start] == 105 && bytes[start + 1] == 99 && bytes[start + 2]
        == 111 {
        proof {
            assert(e =~= seq![105u8, 99u8, 111u8]);
        }
        OutFormat::Ico
    } else {
        proof {
            assert(e.len() == len as int);
            assert(e != seq![112u8, 110u8, 103u8] && e != seq![106u8, 112u8, 103u8] && e != seq![
                106u8,
                112u8,
                101u8,
                103u8,
            ] && e != seq![98u8, 109u8, 112u8] && e != seq![103u8, 105u8, 102u8] && e != seq![
                105u8,
                99u8,
                111u8,
            ]) by {
                assert(seq![112u8, 110u8, 103u8].len() == 3);
                assert(seq![106u8, 112u8, 103u8].len() == 3);
                assert(seq![106u8, 112u8, 101u8, 103u8].len() == 4);
                assert(seq![98u8, 109u8, 112u8].len() == 3);
                assert(seq![103u8, 105u8, 102u8].len() == 3);
                assert(seq![105u8, 99u8, 111u8].len() == 3);
            }
        }
        OutFormat::Png
    };
    r
}

/// The resolved output encoding of an action list: the payload of its
/// last `Format` action, or the default when it has none.
pub open spec fn resolved_format(actions: Seq<Action>, default: OutFormat) -> OutFormat
    decreases actions.len(),
{
    if actions.len() == 0 {
        default
    } else {
        match actions.last() {
            Action::Format(f) => f,
            _ => resolved_format(actions.drop_last(), default),
        }
    }
}

/// An action list that holds an explicit `Format` action resolves to
/// the payload of the last one, at whatever position it stands: the
/// extension-derived default plays no part in the outcome.
pub proof fn lemma_explicit_format_wins(actions: Seq<Action>, d1: OutFormat, d2: OutFormat)
    requires
        exists|i: int| 0 <= i < actions.len() && actions[i] is Format,
    ensures
        resolved_format(actions, d1) == resolved_format(actions, d2),
    decreases actions.len(),
{
    let i = choose|i: int| 0 <= i < actions.len() && actions[i] is Format;
    match actions.last() {
        Action::Format(_) => {
        },
        _ => {
            assert(i != actions.len() - 1);
            assert(actions.drop_last()[i] == actions[i]);
            lemma_explicit_format_wins(actions.drop_last(), d1, d2);
        },
    }
}

/// Resolves the output encoding of a pipeline: an explicit `Format`
/// action wins over the extension-derived default at whatever position
/// it stands, the last one when there are several.
pub fn resolve_format(actions: &Vec<Action>, default: OutFormat) -> (r: OutFormat)
    ensures
        r == resolved_format(actions@, default),
{
    let n = actions.len();
    let mut r = default;
    let mut i: usize = 0;
    while i < n
        invariant
            n == actions@.len(),
            i <= n,
            r == resolved_format(actions@.subrange(0, i as int), default),
        decreases n - i,
    {
        let a = &actions[i];
        match a {
            Action::Format(f) => {
                r = *f;
            },
            _ => {},
        }
        proof {
            let pre = actions@.subrange(0, i as int + 1);
            assert(pre.last() == actions@[i as int]);
            assert(pre.drop_last() =~= actions@.subrange(0, i as int));
        }
        i = i + 1;
    }
    proof {
        assert(actions@.subrange(0, n as int) =~= actions@);
    }
    r
}

} // verus!
