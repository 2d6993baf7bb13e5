use mgol::obj_file::{ObjFile, TempVarType};

const PROLOGUE: &str = "#include <stdio.h>\n\ntypedef char literal[256];\ntypedef int inteiro;\ntypedef double real;\n\nvoid main(void)\n{\n";

const EPILOGUE: &str = "    return 0;\n}\n";

#[test]
fn empty_object_file_is_prologue_and_epilogue() {
    let file = ObjFile::new();
    assert_eq!(file.create(), format!("{}{}", PROLOGUE, EPILOGUE));
    assert_eq!(file.temp_count(), 0);
    assert_eq!(file.temp_var(0), None);
}

#[test]
fn body_is_written_as_it_was_printed() {
    let mut file = ObjFile::new();
    file.print(String::from("    a"));
    file.print(String::from(" = 1;\n"));
    file.print(String::new());
    file.print(String::from("    b = 2;\n"));
    assert_eq!(file.create(), format!("{}    a = 1;\n    b = 2;\n{}", PROLOGUE, EPILOGUE));
}

#[test]
fn temporaries_are_declared_in_order() {
    let mut file = ObjFile::new();
    file.add_temp_var(TempVarType::Int);
    file.add_temp_var(TempVarType::Real);
    file.add_temp_var(TempVarType::Int);
    file.print(String::from("    T0 = 1 + 2;\n"));
    let block = "    /*----Variaveis temporarias----*/\n    inteiro T0\n    real T1\n    inteiro T2\n    /*------------------------------*/\n";
    assert_eq!(file.create(), format!("{}{}    T0 = 1 + 2;\n{}", PROLOGUE, block, EPILOGUE));
    assert_eq!(file.temp_count(), 3);
    assert_eq!(file.temp_var(1), Some(TempVarType::Real));
    assert_eq!(file.temp_var(2), Some(TempVarType::Int));
    assert_eq!(file.temp_var(3), None);
}

#[test]
fn indices_of_temporaries_are_decimal() {
    let mut file = ObjFile::new();
    for _ in 0..12 {
        file.add_temp_var(TempVarType::Real);
    }
    let text = file.create();
    assert!(text.contains("    real T9\n    real T10\n    real T11\n    /*---"));
    assert!(!text.contains("T12"));
}
