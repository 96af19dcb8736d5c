use vstd::prelude::*;

verus! {

/// `name` with every hyphen turned into an underscore, as module paths spell a package name.
pub open spec fn underscored(name: Seq<char>) -> Seq<char> {
    name.map_values(|c: char| if c == '-' { '_' } else { c })
}

/// The log filter the game starts with for the package `package_name`:
/// everything at info, the game's own module at trace, and two noisy
/// dependencies quietened.
pub open spec fn spec_log_filter(package_name: Seq<char>) -> Seq<char> {
    "info,"@ + underscored(package_name) + "=trace,bevy_dioxus_hooks::query::command=error,wgpu_hal=off"@
}

/// Builds the log filter for the package `package_name`.
pub fn log_filter(package_name: &str) -> (filter: String)
    ensures
        filter@ == spec_log_filter(package_name@),
{
    let name = package_name;
    let n = name.unicode_len();
    let mut filter = String::from_str("info,");
    let ghost head = "info,"@;
    let mut start: usize = 0;
    let mut i: usize = 0;
    while i < n
        invariant
            n == name@.len(),
            0 <= start <= i <= n,
            filter@ == head + underscored(name@.take(start as int)),
            forall|j: int| start <= j < i ==> name@[j] != '-',
        decreases n - i,
    {
        let c = name.get_char(i);
        if c == '-' {
            let run = name.substring_char(start, i);
            filter.append(run);
            filter.append("_");
            proof {
                reveal_strlit("_");
                assert(underscored(name@.take(i + 1)) =~= underscored(name@.take(start as int)) + run@
                    + "_"@);
            }
            start = i + 1;
        }
        i += 1;
    }
    let rest = name.substring_char(start, n);
    filter.append(rest);
    filter.append("=trace,bevy_dioxus_hooks::query::command=error,wgpu_hal=off");
    proof {
        assert(name@.take(n as int) =~= name@);
        assert(underscored(name@) =~= underscored(name@.take(start as int)) + rest@);
    }
    filter
}

} // verus!
