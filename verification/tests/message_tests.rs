use rvm::fault::VmFault;
use rvm::generator::AssemblyError;

#[test]
fn assembly_errors_say_what_went_wrong() {
    assert_eq!(
        AssemblyError::UnknownMnemonic(String::from("frob")).message(),
        "No command found called `frob`"
    );
    assert_eq!(
        AssemblyError::InsufficientOperands(String::from("push")).message(),
        "Not enough arguments for push"
    );
    assert_eq!(
        AssemblyError::UnresolvedLabel(String::from("@f")).message(),
        "Cannot find function '@f'"
    );
    assert_eq!(
        AssemblyError::UnresolvedLabel(String::from("#t")).message(),
        "Cannot find tag '#t'"
    );
    assert_eq!(
        AssemblyError::InvalidNumericOperand(String::from("five")).message(),
        "Cannot convert 'five' to number"
    );
    assert_eq!(
        AssemblyError::DuplicateLabel(String::from("@main")).message(),
        "Label '@main' is declared twice"
    );
    assert_eq!(AssemblyError::CodeOverflow.message(), "Code capacity exceeded");
}

#[test]
fn faults_say_what_went_wrong() {
    assert_eq!(VmFault::StackOverflow.message(), "Stack overflow");
    assert_eq!(VmFault::StackUnderflow.message(), "Cannot pop off stack");
    assert_eq!(VmFault::FrameUnderflow.message(), "Out of stack frames");
    assert_eq!(VmFault::MissingEntryLabel.message(), "No main label found");
    assert_eq!(VmFault::HeapAddressOutOfRange.message(), "Heap address out of range");
    assert_eq!(VmFault::HeapExhausted.message(), "Heap limit exceeded");
    assert_eq!(VmFault::LocalOutOfRange.message(), "Local slot out of range");
    assert_eq!(
        VmFault::TruncatedInstruction.message(),
        "Instruction cut off by the end of the code"
    );
    assert_eq!(VmFault::InvalidOpcode(99).message(), "Invalid opcode 99");
}
