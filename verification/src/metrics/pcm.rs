//! The command line of the sampling process.
//!
//! The process samples ten times a second and writes its samples to a file
//! of comma-separated values until it is stopped. Starting and stopping it is
//! the caller's part; which program to start, and with which arguments, is
//! said here.

use vstd::prelude::*;
use vstd::string::StringExecFns;

verus! {

/// The directory of the sample files, below the project's root.
pub open spec fn output_directory_text(project_root: Seq<char>) -> Seq<char> {
    project_root + "/src/energy_benchmarks/"@
}

/// The argument that names the sample file: the path, between double quotes.
pub open spec fn csv_argument_text(path: Seq<char>) -> Seq<char> {
    "-csv=\""@ + path + "\""@
}

/// A process to start.
#[derive(Debug)]
pub struct SamplerCommand {
    /// The program.
    pub program: String,
    /// Its arguments, in order.
    pub arguments: Vec<String>,
    /// The directory that has to be there before the process starts.
    pub output_directory: String,
    /// The file that the process writes.
    pub output_path: String,
}

/// The sampling process for the sample file `file_name`: the program, the
/// sampling interval in seconds, the switches that keep it quiet, and the
/// file to write.
pub fn monitoring_command(project_root: &str, file_name: &str) -> (command: SamplerCommand)
    ensures
        command.program@ == "pcm"@,
        command.output_directory@ == output_directory_text(project_root@),
        command.output_path@ == output_directory_text(project_root@) + file_name@,
        command.arguments@.len() == 4,
        command.arguments@[0]@ == "0.1"@,
        command.arguments@[1]@ == "-r"@,
        command.arguments@[2]@ == "-silent"@,
        command.arguments@[3]@ == csv_argument_text(command.output_path@),
{
    let mut output_directory = String::from_str(project_root);
    output_directory.append("/src/energy_benchmarks/");
    let mut output_path = output_directory.clone();
    output_path.append(file_name);
    let mut csv_argument = String::from_str("-csv=\"");
    csv_argument.append(output_path.as_str());
    csv_argument.append("\"");
    let mut arguments: Vec<String> = Vec::new();
    arguments.push(String::from_str("0.1"));
    arguments.push(String::from_str("-r"));
    arguments.push(String::from_str("-silent"));
    arguments.push(csv_argument);
    SamplerCommand { program: String::from_str("pcm"), arguments, output_directory, output_path }
}

} // verus!
