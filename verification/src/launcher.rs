//! Building the child process's argument vector, one action at a time.
//!
//! Every user-triggered action becomes one invocation of the external
//! storage tool: a subcommand token followed by an ordered flag list.
//! Secrets (passwords) travel as plain arguments — a documented limitation
//! of the tool's interface — and a target endpoint as `--api <url>`.
//! Transfer actions add the machine-readable output flag so that progress
//! lines arrive in the recognised formats.  The spawn itself is outside
//! work; this module pins down exactly which words reach it.

use vstd::prelude::*;
use vstd::string::*;

verus! {

/// One user-triggered invocation of the external tool.
pub enum ActionRequest {
    UploadFile { local_path: String, remote_name: String, tier: usize, encrypt: bool, password: String },
    DownloadFile { remote_name: String, save_path: String, decrypt: bool, password: String, legacy: bool },
    CreatePublicLink { remote_filename: String, title: String, description: String },
    Login { username: String, password: String },
    NewUser { username: String, password: String },
    EncryptLocal { input_path: String, output_path: String, password: String },
    DecryptLocal { input_path: String, output_path: String, password: String },
    CheckSol,
    CheckToken,
    TokenUsage { period: String },
    SwapSolForPipe { amount: String },
    WithdrawSol { amount: String, to_pubkey: String },
    WithdrawPipe { amount: String, to_pubkey: String },
    GetTierPricing,
}

/// Number of upload tiers the tool knows.
pub open spec fn tier_count() -> int {
    5
}

/// Name of upload tier `t`.
pub open spec fn spec_tier_name(t: int) -> Seq<char> {
    if t == 0 {
        "normal"@
    } else if t == 1 {
        "priority"@
    } else if t == 2 {
        "premium"@
    } else if t == 3 {
        "ultra"@
    } else {
        "enterprise"@
    }
}

/// The well-known mint address of the tool's token.
pub open spec fn spec_pipe_mint() -> Seq<char> {
    "35mhJor7qTD212YXdLkB8sRzTbaYRXmTzHTCFSDP5voJ"@
}

/// A request is well-formed when its tier index names a tier.
pub open spec fn wf_request(req: ActionRequest) -> bool {
    match req {
        ActionRequest::UploadFile { tier, .. } => tier < tier_count(),
        _ => true,
    }
}

/// The exact argument vector one request produces.
pub open spec fn spec_args(req: ActionRequest, api: Seq<char>) -> Seq<Seq<char>> {
    match req {
        ActionRequest::UploadFile { local_path, remote_name, tier, encrypt, password } => {
            let base = seq!["upload-file"@, local_path@, remote_name@, "--tier"@]
                + seq![spec_tier_name(tier as int)];
            let enc = if encrypt {
                base + seq!["--encrypt"@, "--password"@, password@]
            } else {
                base
            };
            enc + seq!["--api"@, api, "--gui-style"@]
        },
        ActionRequest::DownloadFile { remote_name, save_path, decrypt, password, legacy } => {
            let base = seq!["download-file"@, remote_name@, save_path@];
            let dec = if decrypt {
                base + seq!["--decrypt"@, "--password"@, password@]
            } else {
                base
            };
            let leg = if legacy {
                dec + seq!["--legacy"@]
            } else {
                dec
            };
            leg + seq!["--api"@, api, "--gui-style"@]
        },
        ActionRequest::CreatePublicLink { remote_filename, title, description } => {
            let base = seq!["create-public-link"@, remote_filename@];
            let tit = if title@.len() > 0 {
                base + seq!["--title"@, title@]
            } else {
                base
            };
            let des = if description@.len() > 0 {
                tit + seq!["--description"@, description@]
            } else {
                tit
            };
            des + seq!["--api"@, api]
        },
        ActionRequest::Login { username, password } => seq![
            "login"@,
            username@,
            "--api"@,
            api,
            "--password"@,
            password@,
        ],
        ActionRequest::NewUser { username, password } => seq![
            "new-user"@,
            username@,
            "--api"@,
            api,
            "--password"@,
            password@,
        ],
        ActionRequest::EncryptLocal { input_path, output_path, password } => seq![
            "encrypt-local"@,
            input_path@,
            output_path@,
            "--password"@,
            password@,
        ],
        ActionRequest::DecryptLocal { input_path, output_path, password } => seq![
            "decrypt-local"@,
            input_path@,
            output_path@,
            "--password"@,
            password@,
        ],
        ActionRequest::CheckSol => seq!["check-sol"@, "--api"@, api],
        ActionRequest::CheckToken => seq!["check-token"@, "--api"@, api],
        ActionRequest::TokenUsage { period } => seq!["token-usage"@, "-p"@, period@, "--api"@, api],
        ActionRequest::SwapSolForPipe { amount } => seq![
            "swap-sol-for-pipe"@,
            amount@,
            "--api"@,
            api,
        ],
        ActionRequest::WithdrawSol { amount, to_pubkey } => seq![
            "withdraw-sol"@,
            amount@,
            to_pubkey@,
            "--api"@,
            api,
        ],
        ActionRequest::WithdrawPipe { amount, to_pubkey } => seq![
            "withdraw-custom-token"@,
            spec_pipe_mint(),
            amount@,
            to_pubkey@,
            "--api"@,
            api,
        ],
        ActionRequest::GetTierPricing => seq!["get-tier-pricing"@],
    }
}

/// Name of upload tier `t`.
pub fn tier_name(t: usize) -> (r: &'static str)
    requires
        t < tier_count(),
    ensures
        r@ == spec_tier_name(t as int),
{
    if t == 0 {
        "normal"
    } else if t == 1 {
        "priority"
    } else if t == 2 {
        "premium"
    } else if t == 3 {
        "ultra"
    } else {
        "enterprise"
    }
}

/// The well-known mint address of the tool's token.
pub fn pipe_mint() -> (r: &'static str)
    ensures
        r@ == spec_pipe_mint(),
{
    "35mhJor7qTD212YXdLkB8sRzTbaYRXmTzHTCFSDP5voJ"
}

fn push_str(args: &mut Vec<String>, s: &str)
    ensures
        final(args).deep_view() == old(args).deep_view().push(s@),
{
    let ghost pre = args.deep_view();
    args.push(s.to_owned());
    proof {
        assert(args.deep_view() =~~= pre.push(s@));
    }
}

fn push_owned(args: &mut Vec<String>, s: &String)
    ensures
        final(args).deep_view() == old(args).deep_view().push(s@),
{
    let ghost pre = args.deep_view();
    args.push(s.clone());
    proof {
        assert(args.deep_view() =~~= pre.push(s@));
    }
}

/// The argument vector for one request against one endpoint.
pub fn build_args(req: &ActionRequest, api_endpoint: &str) -> (args: Vec<String>)
    requires
        wf_request(*req),
    ensures
        args.deep_view() == spec_args(*req, api_endpoint@),
{
    let mut args: Vec<String> = Vec::new();
    proof {
        assert(args.deep_view() =~= Seq::<Seq<char>>::empty());
    }
    match req {
        ActionRequest::UploadFile { local_path, remote_name, tier, encrypt, password } => {
            push_str(&mut args, "upload-file");
            push_owned(&mut args, local_path);
            push_owned(&mut args, remote_name);
            push_str(&mut args, "--tier");
            push_str(&mut args, tier_name(*tier));
            if *encrypt {
                push_str(&mut args, "--encrypt");
                push_str(&mut args, "--password");
                push_owned(&mut args, password);
            }
            push_str(&mut args, "--api");
            push_str(&mut args, api_endpoint);
            push_str(&mut args, "--gui-style");
            proof {
                assert(args.deep_view() =~~= spec_args(*req, api_endpoint@));
            }
        },
        ActionRequest::DownloadFile { remote_name, save_path, decrypt, password, legacy } => {
            push_str(&mut args, "download-file");
            push_owned(&mut args, remote_name);
            push_owned(&mut args, save_path);
            if *decrypt {
                push_str(&mut args, "--decrypt");
                push_str(&mut args, "--password");
                push_owned(&mut args, password);
            }
            if *legacy {
                push_str(&mut args, "--legacy");
            }
            push_str(&mut args, "--api");
            push_str(&mut args, api_endpoint);
            push_str(&mut args, "--gui-style");
            proof {
                assert(args.deep_view() =~~= spec_args(*req, api_endpoint@));
            }
        },
        ActionRequest::CreatePublicLink { remote_filename, title, description } => {
            push_str(&mut args, "create-public-link");
            push_owned(&mut args, remote_filename);
            if title.as_str().unicode_len() > 0 {
                push_str(&mut args, "--title");
                push_owned(&mut args, title);
            }
            if description.as_str().unicode_len() > 0 {
                push_str(&mut args, "--description");
                push_owned(&mut args, description);
            }
            push_str(&mut args, "--api");
            push_str(&mut args, api_endpoint);
            proof {
                assert(args.deep_view() =~~= spec_args(*req, api_endpoint@));
            }
        },
        ActionRequest::Login { username, password } => {
            push_str(&mut args, "login");
            push_owned(&mut args, username);
            push_str(&mut args, "--api");
            push_str(&mut args, api_endpoint);
            push_str(&mut args, "--password");
            push_owned(&mut args, password);
            proof {
                assert(args.deep_view() =~~= spec_args(*req, api_endpoint@));
            }
        },
        ActionRequest::NewUser { username, password } => {
            push_str(&mut args, "new-user");
            push_owned(&mut args, username);
            push_str(&mut args, "--api");
            push_str(&mut args, api_endpoint);
            push_str(&mut args, "--password");
            push_owned(&mut args, password);
            proof {
                assert(args.deep_view() =~~= spec_args(*req, api_endpoint@));
            }
        },
        ActionRequest::EncryptLocal { input_path, output_path, password } => {
            push_str(&mut args, "encrypt-local");
            push_owned(&mut args, input_path);
            push_owned(&mut args, output_path);
            push_str(&mut args, "--password");
            push_owned(&mut args, password);
            proof {
                assert(args.deep_view() =~~= spec_args(*req, api_endpoint@));
            }
        },
        ActionRequest::DecryptLocal { input_path, output_path, password } => {
            push_str(&mut args, "decrypt-local");
            push_owned(&mut args, input_path);
            push_owned(&mut args, output_path);
            push_str(&mut args, "--password");
            push_owned(&mut args, password);
            proof {
                assert(args.deep_view() =~~= spec_args(*req, api_endpoint@));
            }
        },
        ActionRequest::CheckSol => {
            push_str(&mut args, "check-sol");
            push_str(&mut args, "--api");
            push_str(&mut args, api_endpoint);
            proof {
                assert(args.deep_view() =~~= spec_args(*req, api_endpoint@));
            }
        },
        ActionRequest::CheckToken => {
            push_str(&mut args, "check-token");
            push_str(&mut args, "--api");
            push_str(&mut args, api_endpoint);
            proof {
                assert(args.deep_view() =~~= spec_args(*req, api_endpoint@));
            }
        },
        ActionRequest::TokenUsage { period } => {
            push_str(&mut args, "token-usage");
            push_str(&mut args, "-p");
            push_owned(&mut args, period);
            push_str(&mut args, "--api");
            push_str(&mut args, api_endpoint);
            proof {
                assert(args.deep_view() =~~= spec_args(*req, api_endpoint@));
            }
        },
        ActionRequest::SwapSolForPipe { amount } => {
            push_str(&mut args, "swap-sol-for-pipe");
            push_owned(&mut args, amount);
            push_str(&mut args, "--api");
            push_str(&mut args, api_endpoint);
            proof {
                assert(args.deep_view() =~~= spec_args(*req, api_endpoint@));
            }
        },
        ActionRequest::WithdrawSol { amount, to_pubkey } => {
            push_str(&mut args, "withdraw-sol");
            push_owned(&mut args, amount);
            push_owned(&mut args, to_pubkey);
            push_str(&mut args, "--api");
            push_str(&mut args, api_endpoint);
            proof {
                assert(args.deep_view() =~~= spec_args(*req, api_endpoint@));
            }
        },
        ActionRequest::WithdrawPipe { amount, to_pubkey } => {
            push_str(&mut args, "withdraw-custom-token");
            push_str(&mut args, pipe_mint());
            push_owned(&mut args, amount);
            push_owned(&mut args, to_pubkey);
            push_str(&mut args, "--api");
            push_str(&mut args, api_endpoint);
            proof {
                assert(args.deep_view() =~~= spec_args(*req, api_endpoint@));
            }
        },
        ActionRequest::GetTierPricing => {
            push_str(&mut args, "get-tier-pricing");
            proof {
                assert(args.deep_view() =~~= spec_args(*req, api_endpoint@));
            }
        },
    }
    args
}

} // verus!
