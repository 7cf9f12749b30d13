//! The squeue options the user passes through, and their command-line form.
use vstd::prelude::*;

use crate::text::{opt_view, strings_view};

verus! {

/// Options forwarded to `squeue`: value options (`--name=value`) hold the
/// value given, if any; switches (`--name`) are on or off.
pub struct SqueueArgs {
    /// Comma separated list of accounts to view, default is all accounts.
    pub account: Option<String>,
    /// Display jobs in hidden partitions.
    pub all: bool,
    /// Report federated information if a member of one.
    pub federation: bool,
    /// Do not display jobs in hidden partitions.
    pub hide: bool,
    /// Comma separated list of jobs IDs to view, default is all.
    pub job: Option<String>,
    /// Report information only about jobs on the local cluster.
    pub local: bool,
    /// Comma separated list of license names to view.
    pub licenses: Option<String>,
    /// Cluster to issue commands to.
    pub clusters: Option<String>,
    /// Equivalent to `--user=<my username>`.
    pub me: bool,
    /// Comma separated list of job names to view.
    pub name: Option<String>,
    /// Don't convert units from the type they are given in.
    pub noconvert: bool,
    /// Comma separated list of partitions to view, default is all partitions.
    pub partition: Option<String>,
    /// Comma separated list of qos's to view, default is all qos's.
    pub qos: Option<String>,
    /// Reservation to view, default is all.
    pub reservation: Option<String>,
    /// Report information about all sibling jobs on a federated cluster.
    pub sibling: bool,
    /// Comma separated list of job steps to view, default is all.
    pub step: Option<String>,
    /// Comma separated list of fields to sort on.
    pub sort: Option<String>,
    /// Comma separated list of states to view.
    pub states: Option<String>,
    /// Comma separated list of users to view.
    pub user: Option<String>,
    /// List of nodes to view, default is all nodes.
    pub nodelist: Option<String>,
}

/// A value option: `prefix` (such as `--account=`) followed by the value,
/// or nothing when no value was given.
pub open spec fn value_flag(prefix: Seq<char>, v: Option<Seq<char>>) -> Seq<Seq<char>> {
    match v {
        Some(x) => seq![prefix + x],
        None => Seq::empty(),
    }
}

/// A switch: `flag` (such as `--all`) when it is on, nothing otherwise.
pub open spec fn switch_flag(flag: Seq<char>, on: bool) -> Seq<Seq<char>> {
    if on {
        seq![flag]
    } else {
        Seq::empty()
    }
}

/// The arguments for `squeue`, one per option given, in declaration order.
pub open spec fn squeue_flags(a: SqueueArgs) -> Seq<Seq<char>> {
    value_flag("--account="@, opt_view(a.account)) + switch_flag("--all"@, a.all) + switch_flag(
        "--federation"@,
        a.federation,
    ) + switch_flag("--hide"@, a.hide) + value_flag("--job="@, opt_view(a.job)) + switch_flag(
        "--local"@,
        a.local,
    ) + value_flag("--licenses="@, opt_view(a.licenses)) + value_flag(
        "--clusters="@,
        opt_view(a.clusters),
    ) + switch_flag("--me"@, a.me) + value_flag("--name="@, opt_view(a.name)) + switch_flag(
        "--noconvert"@,
        a.noconvert,
    ) + value_flag("--partition="@, opt_view(a.partition)) + value_flag(
        "--qos="@,
        opt_view(a.qos),
    ) + value_flag("--reservation="@, opt_view(a.reservation)) + switch_flag(
        "--sibling"@,
        a.sibling,
    ) + value_flag("--step="@, opt_view(a.step)) + value_flag("--sort="@, opt_view(a.sort))
        + value_flag("--states="@, opt_view(a.states)) + value_flag(
        "--user="@,
        opt_view(a.user),
    ) + value_flag("--nodelist="@, opt_view(a.nodelist))
}

fn push_value_flag(args: &mut Vec<String>, prefix: &str, v: &Option<String>)
    ensures
        strings_view(final(args)@) == strings_view(old(args)@) + value_flag(prefix@, opt_view(*v)),
{
    match v {
        Some(x) => {
            let arg = String::from_str(prefix).concat(x.as_str());
            args.push(arg);
        },
        None => {},
    }
    proof {
        assert(strings_view(args@) =~= strings_view(old(args)@) + value_flag(
            prefix@,
            opt_view(*v),
        ));
    }
}

fn push_switch_flag(args: &mut Vec<String>, flag: &str, on: bool)
    ensures
        strings_view(final(args)@) == strings_view(old(args)@) + switch_flag(flag@, on),
{
    if on {
        args.push(String::from_str(flag));
    }
    proof {
        assert(strings_view(args@) =~= strings_view(old(args)@) + switch_flag(flag@, on));
    }
}

impl SqueueArgs {
    /// The `squeue` arguments for these options: `--name=value` for each
    /// value option given and `--name` for each switch that is on, in the
    /// order the options are declared.
    pub fn to_vec(&self) -> (r: Vec<String>)
        ensures
            strings_view(r@) == squeue_flags(*self),
    {
        let mut args: Vec<String> = Vec::new();
        proof {
            assert(strings_view(args@) =~= Seq::<Seq<char>>::empty());
        }
        push_value_flag(&mut args, "--account=", &self.account);
        push_switch_flag(&mut args, "--all", self.all);
        push_switch_flag(&mut args, "--federation", self.federation);
        push_switch_flag(&mut args, "--hide", self.hide);
        push_value_flag(&mut args, "--job=", &self.job);
        push_switch_flag(&mut args, "--local", self.local);
        push_value_flag(&mut args, "--licenses=", &self.licenses);
        push_value_flag(&mut args, "--clusters=", &self.clusters);
        push_switch_flag(&mut args, "--me", self.me);
        push_value_flag(&mut args, "--name=", &self.name);
        push_switch_flag(&mut args, "--noconvert", self.noconvert);
        push_value_flag(&mut args, "--partition=", &self.partition);
        push_value_flag(&mut args, "--qos=", &self.qos);
        push_value_flag(&mut args, "--reservation=", &self.reservation);
        push_switch_flag(&mut args, "--sibling", self.sibling);
        push_value_flag(&mut args, "--step=", &self.step);
        push_value_flag(&mut args, "--sort=", &self.sort);
        push_value_flag(&mut args, "--states=", &self.states);
        push_value_flag(&mut args, "--user=", &self.user);
        push_value_flag(&mut args, "--nodelist=", &self.nodelist);
        proof {
            assert(Seq::<Seq<char>>::empty() + value_flag("--account="@, opt_view(self.account))
                =~= value_flag("--account="@, opt_view(self.account)));
        }
        args
    }
}

} // verus!
