use vstd::prelude::*;
use vstd::string::StrSliceExecFns;

verus! {

/// `s` with each `-` replaced by `_`.
pub open spec fn underscored(s: Seq<char>) -> Seq<char> {
    s.map_values(|c: char| if c == '-' { '_' } else { c })
}

/// `s` with every `-` replaced by `_`.
pub fn replace_hyphens(s: &str) -> (r: String)
    ensures
        r@ == underscored(s@),
{
    let n = s.unicode_len();
    let mut text = String::new();
    let mut i: usize = 0;
    assert(underscored(s@.take(0)) =~= Seq::<char>::empty());
    while i < n
        invariant
            n == s@.len(),
            i <= n,
            text@ == underscored(s@.take(i as int)),
        decreases n - i,
    {
        let c = s.get_char(i);
        if c == '-' {
            proof {
                reveal_strlit("_");
            }
            text.append("_");
            assert("_"@ =~= seq!['_']);
        } else {
            let one = s.substring_char(i, i + 1);
            assert(one@ =~= seq![c]);
            text.append(one);
        }
        assert(s@.take(i + 1) =~= s@.take(i as int).push(c));
        assert(underscored(s@.take(i + 1)) =~= underscored(s@.take(i as int)).push(
            if c == '-' { '_' } else { c },
        ));
        i = i + 1;
    }
    assert(s@.take(n as int) =~= s@);
    text
}

/// The path of a compiled contract: `<artifacts_path>/<name>-<arch>.wasm`, or
/// `<artifacts_path>/<name>.wasm` without the architecture, where the name has
/// its hyphens turned into underscores.
pub fn wasm_path(artifacts_path: &str, contract_name: &str, append_arch: bool, arch: &str) -> (r:
    String)
    ensures
        append_arch ==> r@ == artifacts_path@ + "/"@ + underscored(contract_name@) + "-"@ + arch@
            + ".wasm"@,
        !append_arch ==> r@ == artifacts_path@ + "/"@ + underscored(contract_name@) + ".wasm"@,
{
    let name = replace_hyphens(contract_name);
    let mut path = String::from_str(artifacts_path);
    path.append("/");
    path.append(name.as_str());
    if append_arch {
        path.append("-");
        path.append(arch);
    }
    path.append(".wasm");
    path
}

/// The path of the compiled swapper contract `contract_name` for the machine
/// architecture `arch`, under `artifacts/`.
pub fn get_swapper_wasm_path(contract_name: &str, arch: &str) -> (r: String)
    ensures
        r@ == "artifacts/"@ + "/"@ + underscored(contract_name@) + "-"@ + arch@ + ".wasm"@,
{
    wasm_path("artifacts/", contract_name, true, arch)
}

} // verus!
