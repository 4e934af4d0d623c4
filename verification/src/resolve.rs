//! The placeholder resolver: substitutes user-supplied values for `<key>`
//! placeholders in a selected command template, and resolves every command
//! of a chain or none.

use vstd::prelude::*;
use crate::models::{SuggestedCommand, SuggestedCommandV, MissingFieldV, ModelSuggestion,
    ResolveError};
use crate::strutil::{sp_trim, sp_replace, sp_has_sub, trim_chars, replace_all, has_sub, chars_of,
    string_of};

verus! {

/// How one resolution ends: the resolved command line, a missing-field key
/// with no `<key>` placeholder in the template, or a value list of the
/// wrong length.
pub ghost enum ResolveOutcome {
    Done(Seq<char>),
    Unmatched(Seq<char>),
    CountMismatch,
}

/// How resolving a whole chain ends.
pub ghost enum ChainOutcome {
    Done(Seq<Seq<char>>),
    Unmatched(Seq<char>),
    CountMismatch,
}

/// The literal placeholder of a key: `<key>`.
pub open spec fn sp_placeholder(key: Seq<char>) -> Seq<char> {
    seq!['<'] + key + seq!['>']
}

/// Resolves the fields in order against the template: each step demands
/// that `<key>` occur in the current template and replaces every
/// occurrence with the trimmed value.
pub open spec fn sp_resolve_fields(
    template: Seq<char>,
    fields: Seq<MissingFieldV>,
    values: Seq<Seq<char>>,
) -> ResolveOutcome
    decreases fields.len(),
{
    if fields.len() == 0 {
        ResolveOutcome::Done(template)
    } else {
        let pat = sp_placeholder(fields[0].key);
        if !sp_has_sub(template, pat) {
            ResolveOutcome::Unmatched(fields[0].key)
        } else {
            sp_resolve_fields(
                sp_replace(template, pat, sp_trim(values[0])),
                fields.drop_first(),
                values.drop_first(),
            )
        }
    }
}

/// What resolving one command yields.
pub open spec fn sp_resolve_command(
    cmd: SuggestedCommandV,
    values: Seq<Seq<char>>,
) -> ResolveOutcome {
    if cmd.missing_fields.len() != values.len() {
        ResolveOutcome::CountMismatch
    } else {
        sp_resolve_fields(cmd.cmd, cmd.missing_fields, values)
    }
}

/// What resolving a chain yields: every command resolved in original
/// order, or the first failure.
pub open spec fn sp_resolve_chain(
    cmds: Seq<SuggestedCommandV>,
    values: Seq<Seq<Seq<char>>>,
) -> ChainOutcome
    decreases cmds.len(),
{
    if cmds.len() != values.len() {
        ChainOutcome::CountMismatch
    } else if cmds.len() == 0 {
        ChainOutcome::Done(Seq::empty())
    } else {
        match sp_resolve_command(cmds[0], values[0]) {
            ResolveOutcome::Done(line) => match sp_resolve_chain(
                cmds.drop_first(),
                values.drop_first(),
            ) {
                ChainOutcome::Done(rest) => ChainOutcome::Done(seq![line] + rest),
                other => other,
            },
            ResolveOutcome::Unmatched(key) => ChainOutcome::Unmatched(key),
            ResolveOutcome::CountMismatch => ChainOutcome::CountMismatch,
        }
    }
}

/// A resolved chain holds exactly one line per command, in order.
pub proof fn lemma_resolve_chain_len(cmds: Seq<SuggestedCommandV>, values: Seq<Seq<Seq<char>>>)
    requires
        sp_resolve_chain(cmds, values) is Done,
    ensures
        sp_resolve_chain(cmds, values)->Done_0.len() == cmds.len(),
        forall|i: int|
            0 <= i < cmds.len() ==> sp_resolve_command(cmds[i], values[i])
                == ResolveOutcome::Done(#[trigger] sp_resolve_chain(cmds, values)->Done_0[i]),
    decreases cmds.len(),
{
    if cmds.len() != values.len() {
    } else if cmds.len() == 0 {
    } else {
        match sp_resolve_command(cmds[0], values[0]) {
            ResolveOutcome::Done(line) => {
                lemma_resolve_chain_len(cmds.drop_first(), values.drop_first());
                let whole = sp_resolve_chain(cmds, values)->Done_0;
                let rest = sp_resolve_chain(cmds.drop_first(), values.drop_first())->Done_0;
                assert forall|i: int|
                    0 <= i < cmds.len() implies sp_resolve_command(cmds[i], values[i])
                    == ResolveOutcome::Done(#[trigger] whole[i]) by {
                    if i > 0 {
                        assert(whole[i] == rest[i - 1]);
                        assert(cmds.drop_first()[i - 1] == cmds[i]);
                        assert(values.drop_first()[i - 1] == values[i]);
                    }
                }
            },
            _ => {},
        }
    }
}

/// Resolves one command template: `values` supplies, in order, one
/// replacement per missing field; each is trimmed and substituted for
/// every occurrence of its `<key>` placeholder, an empty value included.
/// A key with no placeholder in the current template is reported, never
/// skipped.
pub fn resolve_command(cmd: &SuggestedCommand, values: &Vec<String>) -> (r: Result<
    String,
    ResolveError,
>)
    ensures
        match r {
            Ok(s) => sp_resolve_command(cmd@, values@.map_values(|v: String| v@))
                == ResolveOutcome::Done(s@),
            Err(ResolveError::UnmatchedKey(k)) => sp_resolve_command(
                cmd@,
                values@.map_values(|v: String| v@),
            ) == ResolveOutcome::Unmatched(k@),
            Err(ResolveError::ValueCountMismatch) => sp_resolve_command(
                cmd@,
                values@.map_values(|v: String| v@),
            ) is CountMismatch,
        },
{
    let ghost vvals = values@.map_values(|v: String| v@);
    let ghost fvals = cmd@.missing_fields;
    if cmd.missing_fields.len() != values.len() {
        return Err(ResolveError::ValueCountMismatch);
    }
    let mut cur = chars_of(cmd.cmd.as_str());
    let mut i: usize = 0;
    proof {
        assert(fvals.skip(0) =~= fvals);
        assert(vvals.skip(0) =~= vvals);
    }
    while i < cmd.missing_fields.len()
        invariant
            0 <= i <= cmd.missing_fields@.len(),
            fvals == cmd@.missing_fields,
            vvals == values@.map_values(|v: String| v@),
            fvals.len() == vvals.len(),
            fvals.len() == cmd.missing_fields@.len(),
            sp_resolve_fields(cmd@.cmd, fvals, vvals) == sp_resolve_fields(
                cur@,
                fvals.skip(i as int),
                vvals.skip(i as int),
            ),
        decreases cmd.missing_fields@.len() - i,
    {
        let field = &cmd.missing_fields[i];
        let mut pat: Vec<char> = Vec::new();
        pat.push('<');
        let keyc = chars_of(field.key.as_str());
        crate::strutil::append_chars(&mut pat, &keyc);
        pat.push('>');
        proof {
            assert(fvals.skip(i as int)[0] == fvals[i as int]);
            assert(fvals[i as int] == cmd.missing_fields@.map_values(
                |f: crate::models::MissingField| f@,
            )[i as int]);
            assert(pat@ =~= sp_placeholder(fvals[i as int].key));
        }
        if !has_sub(&cur, &pat) {
            return Err(ResolveError::UnmatchedKey(field.key.clone()));
        }
        let raw = chars_of(values[i].as_str());
        let trimmed = trim_chars(&raw);
        let next = replace_all(&cur, &pat, &trimmed);
        proof {
            assert(vvals.skip(i as int)[0] == vvals[i as int]);
            assert(vvals[i as int] == values@[i as int]@);
            assert(fvals.skip(i as int).drop_first() =~= fvals.skip(i as int + 1));
            assert(vvals.skip(i as int).drop_first() =~= vvals.skip(i as int + 1));
        }
        cur = next;
        i = i + 1;
    }
    proof {
        assert(fvals.skip(i as int) =~= Seq::<MissingFieldV>::empty());
        assert(vvals.skip(i as int) =~= Seq::<Seq<char>>::empty());
    }
    Ok(string_of(&cur))
}

/// Resolves every command of a suggestion, in original order: `values`
/// holds one value list per command. The whole chain resolves, or the
/// first failure is reported and nothing is handed out.
pub fn resolve_chain(sugg: &ModelSuggestion, values: &Vec<Vec<String>>) -> (r: Result<
    Vec<String>,
    ResolveError,
>)
    ensures
        match r {
            Ok(lines) => sp_resolve_chain(
                sugg@.commands,
                values@.map_values(|vs: Vec<String>| vs@.map_values(|v: String| v@)),
            ) == ChainOutcome::Done(lines@.map_values(|l: String| l@)) && lines@.len()
                == sugg.commands@.len(),
            Err(ResolveError::UnmatchedKey(k)) => sp_resolve_chain(
                sugg@.commands,
                values@.map_values(|vs: Vec<String>| vs@.map_values(|v: String| v@)),
            ) == ChainOutcome::Unmatched(k@),
            Err(ResolveError::ValueCountMismatch) => sp_resolve_chain(
                sugg@.commands,
                values@.map_values(|vs: Vec<String>| vs@.map_values(|v: String| v@)),
            ) is CountMismatch,
        },
{
    let ghost vcmds = sugg@.commands;
    let ghost vvals = values@.map_values(|vs: Vec<String>| vs@.map_values(|v: String| v@));
    if sugg.commands.len() != values.len() {
        return Err(ResolveError::ValueCountMismatch);
    }
    let mut out: Vec<String> = Vec::new();
    let mut i: usize = 0;
    proof {
        assert(vcmds.skip(0) =~= vcmds);
        assert(vvals.skip(0) =~= vvals);
        if sp_resolve_chain(vcmds, vvals) is Done {
            let whole = sp_resolve_chain(vcmds, vvals)->Done_0;
            assert(out@.map_values(|l: String| l@) + whole =~= whole);
        }
    }
    while i < sugg.commands.len()
        invariant
            0 <= i <= sugg.commands@.len(),
            vcmds == sugg@.commands,
            vvals == values@.map_values(|vs: Vec<String>| vs@.map_values(|v: String| v@)),
            vcmds.len() == vvals.len(),
            vcmds.len() == sugg.commands@.len(),
            out@.len() == i,
            (match sp_resolve_chain(vcmds.skip(i as int), vvals.skip(i as int)) {
                ChainOutcome::Done(rest) => sp_resolve_chain(vcmds, vvals) == ChainOutcome::Done(
                    out@.map_values(|l: String| l@) + rest,
                ),
                other => sp_resolve_chain(vcmds, vvals) == other,
            }),
        decreases sugg.commands@.len() - i,
    {
        proof {
            assert(vcmds.skip(i as int)[0] == vcmds[i as int]);
            assert(vcmds[i as int] == sugg.commands@.map_values(
                |c: SuggestedCommand| c@,
            )[i as int]);
            assert(vvals.skip(i as int)[0] == vvals[i as int]);
            assert(vvals[i as int] == values@[i as int]@.map_values(|v: String| v@));
            assert(vcmds.skip(i as int).drop_first() =~= vcmds.skip(i as int + 1));
            assert(vvals.skip(i as int).drop_first() =~= vvals.skip(i as int + 1));
        }
        let line = match resolve_command(&sugg.commands[i], &values[i]) {
            Ok(line) => line,
            Err(e) => { return Err(e); },
        };
        let ghost out0 = out@;
        out.push(line);
        proof {
            if sp_resolve_chain(vcmds.skip(i as int + 1), vvals.skip(i as int + 1)) is Done {
                let rest = sp_resolve_chain(
                    vcmds.skip(i as int + 1),
                    vvals.skip(i as int + 1),
                )->Done_0;
                assert(out@.map_values(|l: String| l@) =~= out0.map_values(|l: String| l@)
                    + seq![line@]);
                assert(out0.map_values(|l: String| l@) + (seq![line@] + rest) =~= (
                out0.map_values(|l: String| l@) + seq![line@]) + rest);
            }
        }
        i = i + 1;
    }
    proof {
        assert(vcmds.skip(i as int) =~= Seq::<SuggestedCommandV>::empty());
        assert(vvals.skip(i as int) =~= Seq::<Seq<Seq<char>>>::empty());
        let whole = sp_resolve_chain(vcmds, vvals);
        assert(out@.map_values(|l: String| l@) + Seq::<Seq<char>>::empty() =~= out@.map_values(
            |l: String| l@,
        ));
    }
    Ok(out)
}

} // verus!
