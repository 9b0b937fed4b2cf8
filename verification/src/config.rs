//! The settings that the library needs, and what to say when one is missing.

use crate::error::{LastFmError, LastFmErrorView};
use crate::types::plain_result;
use vstd::prelude::*;
use vstd::string::StringExecFns;

verus! {

/// A setting as the contracts see it: its name, and whether it is set.
pub type Setting = (Seq<char>, bool);

/// The names of the settings that are not set, joined by `, `.
pub open spec fn missing_names(settings: Seq<Setting>) -> Seq<char>
    decreases settings.len(),
{
    if settings.len() == 0 {
        Seq::empty()
    } else {
        let before = missing_names(settings.drop_last());
        if settings.last().1 {
            before
        } else if any_missing(settings.drop_last()) {
            before + ", "@ + settings.last().0
        } else {
            settings.last().0
        }
    }
}

/// Whether one of the settings is not set.
pub open spec fn any_missing(settings: Seq<Setting>) -> bool {
    exists|i: int| 0 <= i < settings.len() && !(#[trigger] settings[i]).1
}

/// Where every setting is set, no name is missing.
pub proof fn lemma_none_missing(settings: Seq<Setting>)
    requires
        !any_missing(settings),
    ensures
        missing_names(settings) == Seq::<char>::empty(),
    decreases settings.len(),
{
    if settings.len() > 0 {
        let rest = settings.drop_last();
        assert(settings.last().1);
        assert forall|i: int| 0 <= i < rest.len() implies (#[trigger] rest[i]).1 by {
            assert(settings[i].1);
        }
        lemma_none_missing(rest);
    }
}

/// The views of the settings.
pub open spec fn settings_view(settings: Seq<(String, bool)>) -> Seq<Setting> {
    settings.map_values(|s: (String, bool)| (s.0@, s.1))
}

/// The names of the settings that must be set.
pub fn required_env_vars() -> (names: Vec<String>)
    ensures
        names@.map_values(|n: String| n@) == seq!["LAST_FM_API_KEY"@],
{
    let mut names: Vec<String> = Vec::new();
    names.push("LAST_FM_API_KEY".to_owned());
    assert(names@.map_values(|n: String| n@) =~= seq!["LAST_FM_API_KEY"@]);
    names
}

/// Checks that every one of `vars` is set, where each comes with its name
/// and with whether it is set. The error names all that are missing.
pub fn validate_env_vars(vars: &Vec<(String, bool)>) -> (r: Result<(), LastFmError>)
    ensures
        plain_result(r) == (if any_missing(settings_view(vars@)) {
            Err::<(), LastFmErrorView>(
                LastFmErrorView::MissingEnvVar(missing_names(settings_view(vars@))),
            )
        } else {
            Ok(())
        }),
{
    let ghost all = settings_view(vars@);
    let mut missing = String::new();
    let mut found = false;
    let mut i: usize = 0;
    assert(all.take(0) =~= Seq::<Setting>::empty());
    assert(missing@ =~= missing_names(all.take(0)));
    while i < vars.len()
        invariant
            i <= vars.len(),
            all == settings_view(vars@),
            found == any_missing(all.take(i as int)),
            missing@ == missing_names(all.take(i as int)),
        decreases vars.len() - i,
    {
        let ghost before = all.take(i as int);
        let ghost now = all.take(i + 1);
        assert(now.drop_last() =~= before);
        assert(now.last() == (vars[i as int].0@, vars[i as int].1));
        proof {
            if any_missing(before) {
                let j = choose|j: int| 0 <= j < before.len() && !(#[trigger] before[j]).1;
                assert(!now[j].1);
            }
            if any_missing(now) && vars[i as int].1 {
                let j = choose|j: int| 0 <= j < now.len() && !(#[trigger] now[j]).1;
                assert(!before[j].1);
            }
            if !vars[i as int].1 {
                assert(!now[i as int].1);
            }
            if !any_missing(before) {
                lemma_none_missing(before);
            }
        }
        if !vars[i].1 {
            if found {
                missing.append(", ");
            }
            missing.append(vars[i].0.as_str());
            found = true;
            assert(missing@ =~= missing_names(now));
        }
        i = i + 1;
    }
    assert(all.take(i as int) =~= all);
    if found {
        Err(LastFmError::MissingEnvVar(missing))
    } else {
        Ok(())
    }
}

/// The value of a setting that must be set; the error names the setting
/// where it is not.
pub fn get_required_env_var(var_name: &str, value: Option<String>) -> (r: Result<
    String,
    LastFmError,
>)
    ensures
        match value {
            Some(v) => r.is_ok() && r.unwrap() == v,
            None => r.is_err() && r.unwrap_err()@ == LastFmErrorView::MissingEnvVar(var_name@),
        },
{
    match value {
        Some(v) => Ok(v),
        None => Err(LastFmError::MissingEnvVar(var_name.to_owned())),
    }
}

} // verus!
