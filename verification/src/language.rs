//! The fixed table from a cell's language to the synthetic file name whose
//! extension tells the formatter collaborator which rules to apply.
use crate::byte_ops::bytes_is;
use crate::byte_ops::lower_bytes;
use crate::byte_ops::push_array;
use crate::byte_ops::to_lower_bytes;
use vstd::prelude::*;

verus! {

/// The bytes of `"code_block."`, the stem of every synthetic file name.
pub open spec fn code_block_prefix() -> Seq<u8> {
    seq![99u8, 111u8, 100u8, 101u8, 95u8, 98u8, 108u8, 111u8, 99u8, 107u8, 46u8]
}

/// The file extension mapped to a lower-cased language name, or `None` when
/// the language is unsupported.
pub open spec fn extension_for(lower: Seq<u8>) -> Option<Seq<u8>> {
    if lower == seq![98u8, 97u8, 115u8, 104u8] {
        // "bash" formats as "sh"
        Some(seq![115u8, 104u8])
    } else if lower == seq![99u8, 43u8, 43u8] {
        // "c++" formats as "cpp"
        Some(seq![99u8, 112u8, 112u8])
    } else if lower == seq![99u8, 115u8, 115u8] {
        // "css" formats as "css"
        Some(seq![99u8, 115u8, 115u8])
    } else if lower == seq![99u8, 115u8, 104u8, 97u8, 114u8, 112u8] {
        // "csharp" formats as "cs"
        Some(seq![99u8, 115u8])
    } else if lower == seq![104u8, 116u8, 109u8, 108u8] {
        // "html" formats as "html"
        Some(seq![104u8, 116u8, 109u8, 108u8])
    } else if lower == seq![103u8, 111u8] {
        // "go" formats as "go"
        Some(seq![103u8, 111u8])
    } else if lower == seq![107u8, 111u8, 116u8, 108u8, 105u8, 110u8] {
        // "kotlin" formats as "kt"
        Some(seq![107u8, 116u8])
    } else if lower == seq![106u8, 115u8, 111u8, 110u8] {
        // "json" formats as "json"
        Some(seq![106u8, 115u8, 111u8, 110u8])
    } else if lower == seq![106u8, 117u8, 108u8, 105u8, 97u8] {
        // "julia" formats as "jl"
        Some(seq![106u8, 108u8])
    } else if lower == seq![109u8, 97u8, 114u8, 107u8, 100u8, 111u8, 119u8, 110u8] {
        // "markdown" formats as "md"
        Some(seq![109u8, 100u8])
    } else if lower == seq![116u8, 121u8, 112u8, 101u8, 115u8, 99u8, 114u8, 105u8, 112u8, 116u8] {
        // "typescript" formats as "ts"
        Some(seq![116u8, 115u8])
    } else if lower == seq![106u8, 97u8, 118u8, 97u8, 115u8, 99u8, 114u8, 105u8, 112u8, 116u8] {
        // "javascript" formats as "js"
        Some(seq![106u8, 115u8])
    } else if lower == seq![112u8, 101u8, 114u8, 108u8] {
        // "perl" formats as "perl"
        Some(seq![112u8, 101u8, 114u8, 108u8])
    } else if lower == seq![112u8, 104u8, 112u8] {
        // "php" formats as "php"
        Some(seq![112u8, 104u8, 112u8])
    } else if lower == seq![112u8, 121u8, 116u8, 104u8, 111u8, 110u8] {
        // "python" formats as "py"
        Some(seq![112u8, 121u8])
    } else if lower == seq![112u8, 121u8, 116u8, 104u8, 111u8, 110u8, 51u8] {
        // "python3" formats as "py"
        Some(seq![112u8, 121u8])
    } else if lower == seq![114u8] {
        // "r" formats as "r"
        Some(seq![114u8])
    } else if lower == seq![114u8, 117u8, 98u8, 121u8] {
        // "ruby" formats as "rb"
        Some(seq![114u8, 98u8])
    } else if lower == seq![115u8, 99u8, 97u8, 108u8, 97u8] {
        // "scala" formats as "scala"
        Some(seq![115u8, 99u8, 97u8, 108u8, 97u8])
    } else if lower == seq![115u8, 113u8, 108u8] {
        // "sql" formats as "sql"
        Some(seq![115u8, 113u8, 108u8])
    } else if lower == seq![121u8, 97u8, 109u8, 108u8] {
        // "yaml" formats as "yml"
        Some(seq![121u8, 109u8, 108u8])
    } else {
        None
    }
}

/// The synthetic file name for a language: `code_block.` plus the mapped
/// extension, after case-insensitive lookup; `None` for an unsupported
/// language.
pub open spec fn path_for_language(language: Seq<u8>) -> Option<Seq<u8>> {
    match extension_for(lower_bytes(language)) {
        Some(ext) => Some(code_block_prefix() + ext),
        None => None,
    }
}

fn make_path<const N: usize>(ext: &[u8; N]) -> (r: Vec<u8>)
    ensures
        r@ == code_block_prefix() + ext@,
{
    let mut v: Vec<u8> = Vec::new();
    let prefix: [u8; 11] = [99u8, 111u8, 100u8, 101u8, 95u8, 98u8, 108u8, 111u8, 99u8, 107u8, 46u8];
    push_array(&mut v, &prefix);
    push_array(&mut v, ext);
    proof {
        assert(prefix@ =~= code_block_prefix());
        assert(Seq::<u8>::empty() + prefix@ + ext@ =~= code_block_prefix() + ext@);
    }
    v
}

/// Maps a language name, case-insensitively, to the synthetic file name
/// handed to the formatter collaborator.
pub fn language_to_path(language: &[u8]) -> (r: Option<Vec<u8>>)
    ensures
        (match r {
            Some(p) => path_for_language(language@) == Some(p@),
            None => path_for_language(language@) is None,
        }),
{
    let lower = to_lower_bytes(language);
    let l = lower.as_slice();
    // "bash"
    let lang0: [u8; 4] = [98u8, 97u8, 115u8, 104u8];
    proof {
        assert(lang0@ =~= seq![98u8, 97u8, 115u8, 104u8]);
    }
    if bytes_is(l, &lang0) {
        let ext0: [u8; 2] = [115u8, 104u8];
        proof {
            assert(ext0@ =~= seq![115u8, 104u8]);
        }
        return Some(make_path(&ext0));
    }
    // "c++"
    let lang1: [u8; 3] = [99u8, 43u8, 43u8];
    proof {
        assert(lang1@ =~= seq![99u8, 43u8, 43u8]);
    }
    if bytes_is(l, &lang1) {
        let ext1: [u8; 3] = [99u8, 112u8, 112u8];
        proof {
            assert(ext1@ =~= seq![99u8, 112u8, 112u8]);
        }
        return Some(make_path(&ext1));
    }
    // "css"
    let lang2: [u8; 3] = [99u8, 115u8, 115u8];
    proof {
        assert(lang2@ =~= seq![99u8, 115u8, 115u8]);
    }
    if bytes_is(l, &lang2) {
        let ext2: [u8; 3] = [99u8, 115u8, 115u8];
        proof {
            assert(ext2@ =~= seq![99u8, 115u8, 115u8]);
        }
        return Some(make_path(&ext2));
    }
    // "csharp"
    let lang3: [u8; 6] = [99u8, 115u8, 104u8, 97u8, 114u8, 112u8];
    proof {
        assert(lang3@ =~= seq![99u8, 115u8, 104u8, 97u8, 114u8, 112u8]);
    }
    if bytes_is(l, &lang3) {
        let ext3: [u8; 2] = [99u8, 115u8];
        proof {
            assert(ext3@ =~= seq![99u8, 115u8]);
        }
        return Some(make_path(&ext3));
    }
    // "html"
    let lang4: [u8; 4] = [104u8, 116u8, 109u8, 108u8];
    proof {
        assert(lang4@ =~= seq![104u8, 116u8, 109u8, 108u8]);
    }
    if bytes_is(l, &lang4) {
        let ext4: [u8; 4] = [104u8, 116u8, 109u8, 108u8];
        proof {
            assert(ext4@ =~= seq![104u8, 116u8, 109u8, 108u8]);
        }
        return Some(make_path(&ext4));
    }
    // "go"
    let lang5: [u8; 2] = [103u8, 111u8];
    proof {
        assert(lang5@ =~= seq![103u8, 111u8]);
    }
    if bytes_is(l, &lang5) {
        let ext5: [u8; 2] = [103u8, 111u8];
        proof {
            assert(ext5@ =~= seq![103u8, 111u8]);
        }
        return Some(make_path(&ext5));
    }
    // "kotlin"
    let lang6: [u8; 6] = [107u8, 111u8, 116u8, 108u8, 105u8, 110u8];
    proof {
        assert(lang6@ =~= seq![107u8, 111u8, 116u8, 108u8, 105u8, 110u8]);
    }
    if bytes_is(l, &lang6) {
        let ext6: [u8; 2] = [107u8, 116u8];
        proof {
            assert(ext6@ =~= seq![107u8, 116u8]);
        }
        return Some(make_path(&ext6));
    }
    // "json"
    let lang7: [u8; 4] = [106u8, 115u8, 111u8, 110u8];
    proof {
        assert(lang7@ =~= seq![106u8, 115u8, 111u8, 110u8]);
    }
    if bytes_is(l, &lang7) {
        let ext7: [u8; 4] = [106u8, 115u8, 111u8, 110u8];
        proof {
            assert(ext7@ =~= seq![106u8, 115u8, 111u8, 110u8]);
        }
        return Some(make_path(&ext7));
    }
    // "julia"
    let lang8: [u8; 5] = [106u8, 117u8, 108u8, 105u8, 97u8];
    proof {
        assert(lang8@ =~= seq![106u8, 117u8, 108u8, 105u8, 97u8]);
    }
    if bytes_is(l, &lang8) {
        let ext8: [u8; 2] = [106u8, 108u8];
        proof {
            assert(ext8@ =~= seq![106u8, 108u8]);
        }
        return Some(make_path(&ext8));
    }
    // "markdown"
    let lang9: [u8; 8] = [109u8, 97u8, 114u8, 107u8, 100u8, 111u8, 119u8, 110u8];
    proof {
        assert(lang9@ =~= seq![109u8, 97u8, 114u8, 107u8, 100u8, 111u8, 119u8, 110u8]);
    }
    if bytes_is(l, &lang9) {
        let ext9: [u8; 2] = [109u8, 100u8];
        proof {
            assert(ext9@ =~= seq![109u8, 100u8]);
        }
        return Some(make_path(&ext9));
    }
    // "typescript"
    let lang10: [u8; 10] = [116u8, 121u8, 112u8, 101u8, 115u8, 99u8, 114u8, 105u8, 112u8, 116u8];
    proof {
        assert(lang10@ =~= seq![116u8, 121u8, 112u8, 101u8, 115u8, 99u8, 114u8, 105u8, 112u8, 116u8]);
    }
    if bytes_is(l, &lang10) {
        let ext10: [u8; 2] = [116u8, 115u8];
        proof {
            assert(ext10@ =~= seq![116u8, 115u8]);
        }
        return Some(make_path(&ext10));
    }
    // "javascript"
    let lang11: [u8; 10] = [106u8, 97u8, 118u8, 97u8, 115u8, 99u8, 114u8, 105u8, 112u8, 116u8];
    proof {
        assert(lang11@ =~= seq![106u8, 97u8, 118u8, 97u8, 115u8, 99u8, 114u8, 105u8, 112u8, 116u8]);
    }
    if bytes_is(l, &lang11) {
        let ext11: [u8; 2] = [106u8, 115u8];
        proof {
            assert(ext11@ =~= seq![106u8, 115u8]);
        }
        return Some(make_path(&ext11));
    }
    // "perl"
    let lang12: [u8; 4] = [112u8, 101u8, 114u8, 108u8];
    proof {
        assert(lang12@ =~= seq![112u8, 101u8, 114u8, 108u8]);
    }
    if bytes_is(l, &lang12) {
        let ext12: [u8; 4] = [112u8, 101u8, 114u8, 108u8];
        proof {
            assert(ext12@ =~= seq![112u8, 101u8, 114u8, 108u8]);
        }
        return Some(make_path(&ext12));
    }
    // "php"
    let lang13: [u8; 3] = [112u8, 104u8, 112u8];
    proof {
        assert(lang13@ =~= seq![112u8, 104u8, 112u8]);
    }
    if bytes_is(l, &lang13) {
        let ext13: [u8; 3] = [112u8, 104u8, 112u8];
        proof {
            assert(ext13@ =~= seq![112u8, 104u8, 112u8]);
        }
        return Some(make_path(&ext13));
    }
    // "python"
    let lang14: [u8; 6] = [112u8, 121u8, 116u8, 104u8, 111u8, 110u8];
    proof {
        assert(lang14@ =~= seq![112u8, 121u8, 116u8, 104u8, 111u8, 110u8]);
    }
    if bytes_is(l, &lang14) {
        let ext14: [u8; 2] = [112u8, 121u8];
        proof {
            assert(ext14@ =~= seq![112u8, 121u8]);
        }
        return Some(make_path(&ext14));
    }
    // "python3"
    let lang15: [u8; 7] = [112u8, 121u8, 116u8, 104u8, 111u8, 110u8, 51u8];
    proof {
        assert(lang15@ =~= seq![112u8, 121u8, 116u8, 104u8, 111u8, 110u8, 51u8]);
    }
    if bytes_is(l, &lang15) {
        let ext15: [u8; 2] = [112u8, 121u8];
        proof {
            assert(ext15@ =~= seq![112u8, 121u8]);
        }
        return Some(make_path(&ext15));
    }
    // "r"
    let lang16: [u8; 1] = [114u8];
    proof {
        assert(lang16@ =~= seq![114u8]);
    }
    if bytes_is(l, &lang16) {
        let ext16: [u8; 1] = [114u8];
        proof {
            assert(ext16@ =~= seq![114u8]);
        }
        return Some(make_path(&ext16));
    }
    // "ruby"
    let lang17: [u8; 4] = [114u8, 117u8, 98u8, 121u8];
    proof {
        assert(lang17@ =~= seq![114u8, 117u8, 98u8, 121u8]);
    }
    if bytes_is(l, &lang17) {
        let ext17: [u8; 2] = [114u8, 98u8];
        proof {
            assert(ext17@ =~= seq![114u8, 98u8]);
        }
        return Some(make_path(&ext17));
    }
    // "scala"
    let lang18: [u8; 5] = [115u8, 99u8, 97u8, 108u8, 97u8];
    proof {
        assert(lang18@ =~= seq![115u8, 99u8, 97u8, 108u8, 97u8]);
    }
    if bytes_is(l, &lang18) {
        let ext18: [u8; 5] = [115u8, 99u8, 97u8, 108u8, 97u8];
        proof {
            assert(ext18@ =~= seq![115u8, 99u8, 97u8, 108u8, 97u8]);
        }
        return Some(make_path(&ext18));
    }
    // "sql"
    let lang19: [u8; 3] = [115u8, 113u8, 108u8];
    proof {
        assert(lang19@ =~= seq![115u8, 113u8, 108u8]);
    }
    if bytes_is(l, &lang19) {
        let ext19: [u8; 3] = [115u8, 113u8, 108u8];
        proof {
            assert(ext19@ =~= seq![115u8, 113u8, 108u8]);
        }
        return Some(make_path(&ext19));
    }
    // "yaml"
    let lang20: [u8; 4] = [121u8, 97u8, 109u8, 108u8];
    proof {
        assert(lang20@ =~= seq![121u8, 97u8, 109u8, 108u8]);
    }
    if bytes_is(l, &lang20) {
        let ext20: [u8; 3] = [121u8, 109u8, 108u8];
        proof {
            assert(ext20@ =~= seq![121u8, 109u8, 108u8]);
        }
        return Some(make_path(&ext20));
    }
    None
}

} // verus!
