//! What a plan asks of the kernel, by the numbers that the kernel knows.

use vstd::prelude::*;

use crate::landlock::{
    self, Answer, LandlockConfig, LandlockErrorModel, ProgressModel, RequestModel, RestrictionModel,
    RuleModel,
};

verus! {

proof fn lemma_bits()
    ensures
        landlock::all_writes() == 32754,
        landlock::allowed_writes(32754) == 30642,
        landlock::allowed_writes(0) == 0,
        1u64 | 2 == 3,
        forall|w: u64, x: u64, i: u64|
            (w == 0 || w == 32754) && (x == 0 || x == 1) && (i == 0 || i == 32768)
                ==> #[trigger] (w | x | i) == w + x + i,
{
    assert(2u64 | 16 | 32 | 64 | 128 | 256 | 512 | 1024 | 2048 | 4096 | 8192 | 16384 == 32754)
        by (bit_vector);
    assert(32754u64 & !(64u64 | 2048u64) == 30642) by (bit_vector);
    assert(0u64 & !(64u64 | 2048u64) == 0) by (bit_vector);
    assert(1u64 | 2 == 3) by (bit_vector);
    assert(0u64 | 0 | 0 == 0 && 0u64 | 0 | 32768 == 32768 && 0u64 | 1 | 0 == 1 && 0u64 | 1 | 32768
        == 32769 && 32754u64 | 0 | 0 == 32754 && 32754u64 | 0 | 32768 == 65522 && 32754u64 | 1 | 0
        == 32755 && 32754u64 | 1 | 32768 == 65523) by (bit_vector);
}

/// What a kernel has to know for a configuration: the third version for writes, the fourth for
/// ports, the fifth for devices and the sixth for scopes.
pub open spec fn knows_enough(c: LandlockConfig, abi: u32) -> bool {
    &&& c.write_requested ==> 3 <= abi
    &&& c.bind_tcp_ports@.len() > 0 ==> 4 <= abi
    &&& c.connect_tcp_ports@.len() > 0 ==> 4 <= abi
    &&& c.device_ioctl_allow_paths@.len() > 0 ==> 5 <= abi
    &&& c.scope_signals ==> 6 <= abi
    &&& c.scope_abstract_unix ==> 6 <= abi
}

/// Whether a configuration asks for a restriction at all.
pub open spec fn asks(c: LandlockConfig) -> bool {
    c.write_requested || c.exec_requested || c.device_ioctl_allow_paths@.len() > 0
        || c.bind_tcp_ports@.len() > 0 || c.connect_tcp_ports@.len() > 0 || c.scope_signals
        || c.scope_abstract_unix
}

/// There is a plan exactly where something is asked for and the kernel knows all of it, and the plan
/// carries the version of the kernel.
pub proof fn law_plans_there_are(c: LandlockConfig, abi: u32)
    ensures
        landlock::planned(c, abi) is Ok <==> knows_enough(c, abi) && asks(c),
        landlock::planned(c, abi) matches Ok(p) ==> p.abi_version == abi,
        landlock::planned(c, abi) == Err::<RestrictionModel, LandlockErrorModel>(
            LandlockErrorModel::NotSupported,
        ) <==> knows_enough(c, abi) && !asks(c),
{
    lemma_bits();
}

/// The error of a kernel that lacks a feature.
pub open spec fn lacks(feature: Seq<char>, required_abi: u32, abi: u32) -> Result<
    RestrictionModel,
    LandlockErrorModel,
> {
    Err(LandlockErrorModel::AbiTooOld { feature, required_abi, current_abi: abi })
}

/// A refusal names what the kernel lacks, the version that has it and the version of the kernel.
/// Writes are named before devices, these before ports and these before scopes.
pub proof fn law_refusals_name_the_feature(c: LandlockConfig, abi: u32)
    ensures
        ({
            let lacks_writes = c.write_requested && abi < 3;
            let lacks_devices = c.device_ioctl_allow_paths@.len() > 0 && abi < 5;
            let lacks_ports = c.bind_tcp_ports@.len() + c.connect_tcp_ports@.len() > 0 && abi < 4;
            let lacks_scopes = (c.scope_signals || c.scope_abstract_unix) && abi < 6;
            let r = landlock::planned(c, abi);
            &&& lacks_writes ==> r == lacks(
                "filesystem write restrictions"@,
                3,
                abi,
            )
            &&& !lacks_writes && lacks_devices ==> r == lacks(
                "device ioctl restrictions"@,
                5,
                abi,
            )
            &&& !lacks_writes && !lacks_devices && lacks_ports ==> r == lacks(
                "TCP port restrictions"@,
                4,
                abi,
            )
            &&& !lacks_writes && !lacks_devices && !lacks_ports && lacks_scopes ==> r == lacks(
                "IPC scopes"@,
                6,
                abi,
            )
        }),
{
}

/// What a plan has the kernel handle. Of files: 32754 for the twelve ways of writing, which are 2,
/// 16, 32, 64, 128, 256, 512, 1024, 2048, 4096, 8192 and 16384, and 1 for execution and 32768 for
/// devices. Of the network: 1 for binding and 2 for connecting. Of scopes: 1 for abstract sockets
/// and 2 for signals.
pub proof fn law_what_is_handled(c: LandlockConfig, abi: u32)
    ensures
        landlock::planned(c, abi) matches Ok(p) ==> {
            &&& p.handled_fs == (if c.write_requested {
                32754int
            } else {
                0
            }) + (if c.exec_requested {
                1int
            } else {
                0
            }) + (if c.device_ioctl_allow_paths@.len() > 0 {
                32768int
            } else {
                0
            })
            &&& p.handled_net == (if c.bind_tcp_ports@.len() > 0 {
                1int
            } else {
                0
            }) + (if c.connect_tcp_ports@.len() > 0 {
                2int
            } else {
                0
            })
            &&& p.scoped == (if c.scope_abstract_unix {
                1int
            } else {
                0
            }) + (if c.scope_signals {
                2int
            } else {
                0
            })
        },
{
    lemma_bits();
}

/// The rules of a plan hold all that was asked for: in a writable directory all twelve ways of
/// writing but the making of character and block devices (64 and 2048), which is 30642; execution
/// (1) and the use of devices (32768) beneath their paths; binding (1) and connecting (2) for their
/// ports; and for the directory of devices the writing of files (2) alone.
pub proof fn law_all_that_is_allowed(c: LandlockConfig, abi: u32)
    ensures
        landlock::planned(c, abi) matches Ok(p) ==> {
            &&& c.dev_dir matches Some(d) ==> p.rules.contains(
                RuleModel::Path { path: d@, access: 2, directory: true },
            )
            &&& forall|i: int|
                0 <= i < c.writable_dirs@.len() && c.write_requested ==> p.rules.contains(
                    RuleModel::Path {
                        path: (#[trigger] c.writable_dirs@[i])@,
                        access: 30642,
                        directory: true,
                    },
                )
            &&& forall|i: int|
                0 <= i < c.exec_allow_paths@.len() ==> p.rules.contains(
                    RuleModel::Path {
                        path: (#[trigger] c.exec_allow_paths@[i])@,
                        access: 1,
                        directory: false,
                    },
                )
            &&& forall|i: int|
                0 <= i < c.device_ioctl_allow_paths@.len() ==> p.rules.contains(
                    RuleModel::Path {
                        path: (#[trigger] c.device_ioctl_allow_paths@[i])@,
                        access: 32768,
                        directory: false,
                    },
                )
            &&& forall|i: int|
                0 <= i < c.bind_tcp_ports@.len() ==> p.rules.contains(
                    RuleModel::Port { port: #[trigger] c.bind_tcp_ports@[i], access: 1 },
                )
            &&& forall|i: int|
                0 <= i < c.connect_tcp_ports@.len() ==> p.rules.contains(
                    RuleModel::Port { port: #[trigger] c.connect_tcp_ports@[i], access: 2 },
                )
        },
{
    lemma_bits();
    if let Ok(p) = landlock::planned(c, abi) {
        let k0 = landlock::dev_rules(c.dev_dir).len() as int;
        let k1 = k0 + c.writable_dirs@.len();
        let k2 = k1 + c.exec_allow_paths@.len();
        let k3 = k2 + c.device_ioctl_allow_paths@.len();
        let k4 = k3 + c.bind_tcp_ports@.len();
        if let Some(d) = c.dev_dir {
            assert(p.rules[0] == (RuleModel::Path { path: d@, access: 2, directory: true }));
        }
        assert forall|i: int| 0 <= i < c.writable_dirs@.len() && c.write_requested implies p.rules.contains(
            RuleModel::Path {
                path: (#[trigger] c.writable_dirs@[i])@,
                access: 30642,
                directory: true,
            },
        ) by {
            assert(p.rules[k0 + i] == (RuleModel::Path {
                path: c.writable_dirs@[i]@,
                access: 30642,
                directory: true,
            }));
        }
        assert forall|i: int| 0 <= i < c.exec_allow_paths@.len() implies p.rules.contains(
            RuleModel::Path {
                path: (#[trigger] c.exec_allow_paths@[i])@,
                access: 1,
                directory: false,
            },
        ) by {
            assert(p.rules[k1 + i] == (RuleModel::Path {
                path: c.exec_allow_paths@[i]@,
                access: 1,
                directory: false,
            }));
        }
        assert forall|i: int| 0 <= i < c.device_ioctl_allow_paths@.len() implies p.rules.contains(
            RuleModel::Path {
                path: (#[trigger] c.device_ioctl_allow_paths@[i])@,
                access: 32768,
                directory: false,
            },
        ) by {
            assert(p.rules[k2 + i] == (RuleModel::Path {
                path: c.device_ioctl_allow_paths@[i]@,
                access: 32768,
                directory: false,
            }));
        }
        assert forall|i: int| 0 <= i < c.bind_tcp_ports@.len() implies p.rules.contains(
            RuleModel::Port { port: #[trigger] c.bind_tcp_ports@[i], access: 1 },
        ) by {
            assert(p.rules[k3 + i] == (RuleModel::Port { port: c.bind_tcp_ports@[i], access: 1 }));
        }
        assert forall|i: int| 0 <= i < c.connect_tcp_ports@.len() implies p.rules.contains(
            RuleModel::Port { port: #[trigger] c.connect_tcp_ports@[i], access: 2 },
        ) by {
            assert(p.rules[k4 + i] == (RuleModel::Port {
                port: c.connect_tcp_ports@[i],
                access: 2,
            }));
        }
    }
}

/// Whether a path is one of a list.
pub open spec fn is_listed(paths: Seq<Vec<u8>>, path: Seq<u8>) -> bool {
    exists|i: int| 0 <= i < paths.len() && (#[trigger] paths[i])@ == path
}

/// Whether a rule was asked for.
pub open spec fn was_asked_for(c: LandlockConfig, rule: RuleModel) -> bool {
    match rule {
        RuleModel::Path { path, access, directory: true } => {
            ||| access == 2 && c.dev_dir is Some && c.dev_dir->0@ == path
            ||| access == 30642 && c.write_requested && is_listed(c.writable_dirs@, path)
            ||| access == 0 && !c.write_requested && is_listed(c.writable_dirs@, path)
        },
        RuleModel::Path { path, access, directory: false } => {
            ||| access == 1 && is_listed(c.exec_allow_paths@, path)
            ||| access == 32768 && is_listed(c.device_ioctl_allow_paths@, path)
        },
        RuleModel::Port { port, access } => {
            ||| access == 1 && c.bind_tcp_ports@.contains(port)
            ||| access == 2 && c.connect_tcp_ports@.contains(port)
        },
    }
}

/// Nothing is allowed that was not asked for, and nothing twice: there are as many rules as paths
/// and ports.
pub proof fn law_nothing_else_is_allowed(c: LandlockConfig, abi: u32)
    ensures
        landlock::planned(c, abi) matches Ok(p) ==> {
            &&& forall|i: int| 0 <= i < p.rules.len() ==> was_asked_for(c, #[trigger] p.rules[i])
            &&& p.rules.len() == (if c.dev_dir is Some {
                1int
            } else {
                0
            }) + c.writable_dirs@.len() + c.exec_allow_paths@.len()
                + c.device_ioctl_allow_paths@.len() + c.bind_tcp_ports@.len()
                + c.connect_tcp_ports@.len()
        },
{
    lemma_bits();
    if let Ok(p) = landlock::planned(c, abi) {
        let k0 = landlock::dev_rules(c.dev_dir).len() as int;
        let k1 = k0 + c.writable_dirs@.len();
        let k2 = k1 + c.exec_allow_paths@.len();
        let k3 = k2 + c.device_ioctl_allow_paths@.len();
        let k4 = k3 + c.bind_tcp_ports@.len();
        assert forall|i: int| 0 <= i < p.rules.len() implies was_asked_for(
            c,
            #[trigger] p.rules[i],
        ) by {
            if i < k0 {
                assert(c.dev_dir is Some);
            } else if i < k1 {
                let d = c.writable_dirs@[i - k0];
                assert(is_listed(c.writable_dirs@, d@));
            } else if i < k2 {
                let d = c.exec_allow_paths@[i - k1];
                assert(is_listed(c.exec_allow_paths@, d@));
            } else if i < k3 {
                let d = c.device_ioctl_allow_paths@[i - k2];
                assert(is_listed(c.device_ioctl_allow_paths@, d@));
            } else if i < k4 {
                assert(c.bind_tcp_ports@.contains(c.bind_tcp_ports@[i - k3]));
            } else {
                assert(c.connect_tcp_ports@.contains(c.connect_tcp_ports@[i - k4]));
            }
        }
    }
}

// ---------------------------------------------------------------------------
// The calls
// ---------------------------------------------------------------------------

/// Where the kernel refuses nothing: after `n` answers, the first of which gave the version.
pub open spec fn after_answers(c: LandlockConfig, abi: u32, n: nat) -> (ProgressModel, RequestModel)
    decreases n,
{
    if n == 0 {
        (ProgressModel::Querying, RequestModel::QueryAbi)
    } else {
        landlock::next_step(c, after_answers(c, abi, (n - 1) as nat).0, Answer::Value(abi))
    }
}

proof fn lemma_rules_in_order(c: LandlockConfig, abi: u32, n: nat)
    requires
        landlock::planned(c, abi) is Ok,
    ensures
        ({
            let p = landlock::planned(c, abi)->Ok_0;
            let k = p.rules.len();
            let r = after_answers(c, abi, n);
            &&& n == 1 ==> r.0 == ProgressModel::Creating(p)
            &&& 2 <= n <= k + 1 ==> r == (
                ProgressModel::Adding(p, n - 2),
                RequestModel::AddRule(n - 2),
            )
            &&& n == k + 2 ==> r == (ProgressModel::Dropping(p), RequestModel::SetNoNewPrivs)
            &&& n == k + 3 ==> r == (ProgressModel::Restricting(p), RequestModel::RestrictSelf)
            &&& n == k + 4 ==> r == (ProgressModel::Over, RequestModel::Done(abi))
        }),
    decreases n,
{
    reveal_with_fuel(after_answers, 2);
    if n > 0 {
        lemma_rules_in_order(c, abi, (n - 1) as nat);
    }
}

/// Where the kernel refuses nothing, the set of rules is made with what the plan handles, each rule
/// of the plan is added once and in order, privileges are given up, the rules are enforced, and it
/// is over.
pub proof fn law_a_plan_is_carried_out(c: LandlockConfig, abi: u32)
    requires
        landlock::planned(c, abi) is Ok,
    ensures
        ({
            let p = landlock::planned(c, abi)->Ok_0;
            let k = p.rules.len();
            &&& after_answers(c, abi, 0).1 is QueryAbi
            &&& after_answers(c, abi, 1).1 == (RequestModel::CreateRuleset {
                abi_version: abi,
                handled_fs: p.handled_fs,
                handled_net: p.handled_net,
                scoped: p.scoped,
            })
            &&& forall|i: nat|
                i < k ==> (#[trigger] after_answers(c, abi, i + 2)).1 == RequestModel::AddRule(
                    i as int,
                )
            &&& after_answers(c, abi, k + 2).1 is SetNoNewPrivs
            &&& after_answers(c, abi, k + 3).1 is RestrictSelf
            &&& after_answers(c, abi, k + 4).1 == RequestModel::Done(abi)
        }),
{
    let k = landlock::planned(c, abi)->Ok_0.rules.len();
    reveal_with_fuel(after_answers, 2);
    lemma_rules_in_order(c, abi, 1);
    lemma_rules_in_order(c, abi, k + 2);
    lemma_rules_in_order(c, abi, k + 3);
    lemma_rules_in_order(c, abi, k + 4);
    assert forall|i: nat| i < k implies (#[trigger] after_answers(c, abi, i + 2)).1
        == RequestModel::AddRule(i as int) by {
        lemma_rules_in_order(c, abi, i + 2);
    }
}

/// The first call that fails is the last one, and its failure is reported by what was called. The
/// answers 38 and 95 to a call that is about the interface itself mean that there is none. One
/// failure is passed over: a directory of devices that is not there (2).
pub proof fn law_a_failure_ends_it(c: LandlockConfig, s: ProgressModel, errno: i32, opening: bool)
    requires
        s matches ProgressModel::Adding(p, i) ==> 0 <= i < p.rules.len(),
    ensures
        ({
            let a = if opening {
                Answer::OpenErrno(errno)
            } else {
                Answer::Errno(errno)
            };
            let missing = errno == 38 || errno == 95;
            let r = landlock::next_step(c, s, a).1;
            match s {
                ProgressModel::Querying => r == RequestModel::Failed(
                    if missing {
                        LandlockErrorModel::NotSupported
                    } else {
                        LandlockErrorModel::QueryAbi(errno)
                    },
                ),
                ProgressModel::Creating(_) => r == RequestModel::Failed(
                    if missing {
                        LandlockErrorModel::NotSupported
                    } else {
                        LandlockErrorModel::CreateRuleset(errno)
                    },
                ),
                ProgressModel::Adding(p, i) => match p.rules[i] {
                    RuleModel::Path { path, access, .. } => if opening {
                        if errno == 2 && i == 0 && access == 2 {
                            !(r is Failed)
                        } else {
                            r == RequestModel::Failed(LandlockErrorModel::OpenPath { path, errno })
                        }
                    } else {
                        r == RequestModel::Failed(LandlockErrorModel::AddRule { path, errno })
                    },
                    RuleModel::Port { port, access } => {
                        &&& access == 1 ==> r == RequestModel::Failed(
                            LandlockErrorModel::AddNetPortRule { port, action: "bind TCP"@, errno },
                        )
                        &&& access == 2 ==> r == RequestModel::Failed(
                            LandlockErrorModel::AddNetPortRule {
                                port,
                                action: "connect TCP"@,
                                errno,
                            },
                        )
                    },
                },
                ProgressModel::Dropping(_) => r == RequestModel::Failed(
                    LandlockErrorModel::SetNoNewPrivs(errno),
                ),
                ProgressModel::Restricting(_) => r == RequestModel::Failed(
                    if missing {
                        LandlockErrorModel::NotSupported
                    } else {
                        LandlockErrorModel::RestrictSelf(errno)
                    },
                ),
                ProgressModel::Over => r is Failed,
            }
        }),
{
}

} // verus!
