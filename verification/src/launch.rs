//! What a run is asked to do, from the arguments that it was started with.
use vstd::prelude::*;

verus! {

/// The part that a machine plays.
#[derive(Clone, Copy, PartialEq, Eq, Debug, Structural)]
pub enum Mode {
    Single,
    Coordinator,
    Worker,
}

/// The arguments of a run. The temperature, a floating-point number, is not among them: it is
/// handed to the servers as it is.
pub struct Args {
    pub mode: Mode,
    pub prompt: Option<String>,
    pub max_tokens: u32,
    pub mlx_server: String,
    pub mlx_server_b: Option<String>,
    pub worker: Option<String>,
    pub listen: Option<u16>,
    pub timing_csv: Option<String>,
    pub spec_k: u32,
    pub draft_model: Option<String>,
}

/// What a run does.
pub enum Job {
    /// Generate on one server, from the drafts of another.
    Speculate { prompt: String, target: String, draft: String, k: u32, max_tokens: u32 },
    /// Generate on the servers, one behind the other.
    Generate { prompt: String, servers: Vec<String>, max_tokens: u32 },
    /// Generate on a server and, behind it, on the worker at an address.
    Coordinate {
        prompt: String,
        server: String,
        worker: String,
        max_tokens: u32,
        timing_csv: Option<String>,
    },
    /// Run a server's layers for the coordinators that connect to a port.
    Work { server: String, port: u16 },
}

/// The argument that a run lacks.
#[derive(Clone, Copy, PartialEq, Eq, Debug, Structural)]
pub enum ArgsError {
    SpeculatePrompt,
    SpeculateDraft,
    GeneratePrompt,
    CoordinatePrompt,
    CoordinateWorker,
    WorkListen,
}

impl ArgsError {
    /// The text of the error.
    pub open spec fn spec_message(self) -> Seq<char> {
        match self {
            ArgsError::SpeculatePrompt => "spec mode requires --prompt"@,
            ArgsError::SpeculateDraft => "--spec-k requires --draft-model"@,
            ArgsError::GeneratePrompt => "single mode requires --prompt"@,
            ArgsError::CoordinatePrompt => "coordinator requires --prompt"@,
            ArgsError::CoordinateWorker => "coordinator requires --worker"@,
            ArgsError::WorkListen => "worker requires --listen"@,
        }
    }

    /// The text of the error.
    pub fn message(&self) -> (text: &'static str)
        ensures
            text@ == self.spec_message(),
    {
        match self {
            ArgsError::SpeculatePrompt => "spec mode requires --prompt",
            ArgsError::SpeculateDraft => "--spec-k requires --draft-model",
            ArgsError::GeneratePrompt => "single mode requires --prompt",
            ArgsError::CoordinatePrompt => "coordinator requires --prompt",
            ArgsError::CoordinateWorker => "coordinator requires --worker",
            ArgsError::WorkListen => "worker requires --listen",
        }
    }
}

/// The first argument that a run of these arguments lacks.
pub open spec fn lacking(args: Args) -> Option<ArgsError> {
    match args.mode {
        Mode::Single => if args.spec_k > 0 {
            if args.prompt is None {
                Some(ArgsError::SpeculatePrompt)
            } else if args.draft_model is None {
                Some(ArgsError::SpeculateDraft)
            } else {
                None
            }
        } else if args.prompt is None {
            Some(ArgsError::GeneratePrompt)
        } else {
            None
        },
        Mode::Coordinator => if args.prompt is None {
            Some(ArgsError::CoordinatePrompt)
        } else if args.worker is None {
            Some(ArgsError::CoordinateWorker)
        } else {
            None
        },
        Mode::Worker => if args.listen is None {
            Some(ArgsError::WorkListen)
        } else {
            None
        },
    }
}

/// The servers that a run on one machine goes through.
pub open spec fn servers_of(args: Args) -> Seq<String> {
    match args.mlx_server_b {
        None => seq![args.mlx_server],
        Some(second) => seq![args.mlx_server, second],
    }
}

/// Whether `job` is what arguments that lack nothing ask for.
pub open spec fn asks_for(args: Args, job: Job) -> bool {
    match args.mode {
        Mode::Single => if args.spec_k > 0 {
            job == Job::Speculate {
                prompt: args.prompt->0,
                target: args.mlx_server,
                draft: args.draft_model->0,
                k: args.spec_k,
                max_tokens: args.max_tokens,
            }
        } else {
            &&& job is Generate
            &&& job->Generate_prompt == args.prompt->0
            &&& job->servers@ == servers_of(args)
            &&& job->Generate_max_tokens == args.max_tokens
        },
        Mode::Coordinator => job == Job::Coordinate {
            prompt: args.prompt->0,
            server: args.mlx_server,
            worker: args.worker->0,
            max_tokens: args.max_tokens,
            timing_csv: args.timing_csv,
        },
        Mode::Worker => job == Job::Work { server: args.mlx_server, port: args.listen->0 },
    }
}

/// What a run of these arguments is to do, or which argument it lacks.
pub fn job_of(args: Args) -> (job: Result<Job, ArgsError>)
    ensures
        match lacking(args) {
            Some(error) => job == Err::<Job, ArgsError>(error),
            None => job is Ok && asks_for(args, job->Ok_0),
        },
{
    match args.mode {
        Mode::Single => {
            if args.spec_k > 0 {
                let prompt = match args.prompt {
                    Some(prompt) => prompt,
                    None => {
                        return Err(ArgsError::SpeculatePrompt);
                    },
                };
                match args.draft_model {
                    Some(draft) => Ok(
                        Job::Speculate {
                            prompt,
                            target: args.mlx_server,
                            draft,
                            k: args.spec_k,
                            max_tokens: args.max_tokens,
                        },
                    ),
                    None => Err(ArgsError::SpeculateDraft),
                }
            } else {
                let prompt = match args.prompt {
                    Some(prompt) => prompt,
                    None => {
                        return Err(ArgsError::GeneratePrompt);
                    },
                };
                let mut servers: Vec<String> = Vec::new();
                servers.push(args.mlx_server);
                if let Some(second) = args.mlx_server_b {
                    servers.push(second);
                }
                assert(servers@ =~= servers_of(args));
                Ok(Job::Generate { prompt, servers, max_tokens: args.max_tokens })
            }
        },
        Mode::Coordinator => {
            let prompt = match args.prompt {
                Some(prompt) => prompt,
                None => {
                    return Err(ArgsError::CoordinatePrompt);
                },
            };
            match args.worker {
                Some(worker) => Ok(
                    Job::Coordinate {
                        prompt,
                        server: args.mlx_server,
                        worker,
                        max_tokens: args.max_tokens,
                        timing_csv: args.timing_csv,
                    },
                ),
                None => Err(ArgsError::CoordinateWorker),
            }
        },
        Mode::Worker => match args.listen {
            Some(port) => Ok(Job::Work { server: args.mlx_server, port }),
            None => Err(ArgsError::WorkListen),
        },
    }
}

/// A run on one machine has a server to go through.
pub proof fn generating_has_a_server(args: Args, job: Job)
    requires
        lacking(args) is None,
        asks_for(args, job),
        job is Generate,
    ensures
        job->servers@.len() > 0,
        job->servers@[0] == args.mlx_server,
{
}

/// A run goes on exactly where its mode has what it needs: a prompt on one machine and on the
/// coordinator, a draft model where tokens are drafted, the worker's address on the coordinator,
/// and a port on the worker. A missing prompt is named first.
pub proof fn a_run_names_what_it_lacks(args: Args)
    ensures
        lacking(args) is None <==> {
            &&& args.mode is Single ==> args.prompt is Some
            &&& args.mode is Single && args.spec_k > 0 ==> args.draft_model is Some
            &&& args.mode is Coordinator ==> args.prompt is Some && args.worker is Some
            &&& args.mode is Worker ==> args.listen is Some
        },
        args.mode is Single && args.prompt is None && args.spec_k > 0 ==> lacking(args) == Some(
            ArgsError::SpeculatePrompt,
        ),
        args.mode is Single && args.prompt is None && args.spec_k == 0 ==> lacking(args) == Some(
            ArgsError::GeneratePrompt,
        ),
        args.mode is Single && args.prompt is Some && args.spec_k > 0 && args.draft_model is None
            ==> lacking(args) == Some(ArgsError::SpeculateDraft),
        args.mode is Coordinator && args.prompt is None ==> lacking(args) == Some(
            ArgsError::CoordinatePrompt,
        ),
        args.mode is Coordinator && args.prompt is Some && args.worker is None ==> lacking(args)
            == Some(ArgsError::CoordinateWorker),
        args.mode is Worker && args.listen is None ==> lacking(args) == Some(ArgsError::WorkListen),
{
}

/// A job has its arguments as they were given: the prompt, the servers in order, how many tokens
/// are shown and drafted, the worker's address, the path of the listing and the port.
pub proof fn a_job_has_its_arguments(args: Args, job: Job)
    requires
        lacking(args) is None,
        asks_for(args, job),
    ensures
        job is Speculate <==> args.mode is Single && args.spec_k > 0,
        job is Generate <==> args.mode is Single && args.spec_k == 0,
        job is Coordinate <==> args.mode is Coordinator,
        job is Work <==> args.mode is Worker,
        match job {
            Job::Speculate { prompt, target, draft, k, max_tokens } => {
                &&& args.prompt == Some(prompt)
                &&& target == args.mlx_server
                &&& args.draft_model == Some(draft)
                &&& k == args.spec_k
                &&& max_tokens == args.max_tokens
            },
            Job::Generate { prompt, servers, max_tokens } => {
                &&& args.prompt == Some(prompt)
                &&& servers@.len() == if args.mlx_server_b is Some {
                    2int
                } else {
                    1int
                }
                &&& servers@[0] == args.mlx_server
                &&& args.mlx_server_b is Some ==> args.mlx_server_b == Some(servers@[1])
                &&& max_tokens == args.max_tokens
            },
            Job::Coordinate { prompt, server, worker, max_tokens, timing_csv } => {
                &&& args.prompt == Some(prompt)
                &&& server == args.mlx_server
                &&& args.worker == Some(worker)
                &&& max_tokens == args.max_tokens
                &&& timing_csv == args.timing_csv
            },
            Job::Work { server, port } => server == args.mlx_server && args.listen == Some(port),
        },
{
}

/// What the errors on arguments say.
pub proof fn argument_errors_say_why()
    ensures
        ArgsError::SpeculatePrompt.spec_message() == "spec mode requires --prompt"@,
        ArgsError::SpeculateDraft.spec_message() == "--spec-k requires --draft-model"@,
        ArgsError::GeneratePrompt.spec_message() == "single mode requires --prompt"@,
        ArgsError::CoordinatePrompt.spec_message() == "coordinator requires --prompt"@,
        ArgsError::CoordinateWorker.spec_message() == "coordinator requires --worker"@,
        ArgsError::WorkListen.spec_message() == "worker requires --listen"@,
{
}

} // verus!
